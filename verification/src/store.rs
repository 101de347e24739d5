//! The durable record store: proposals by id.
//!
//! The store keeps every proposal as one record in the table and offers
//! three operations: [`ProposalStore::get`], [`ProposalStore::put`] and
//! [`ProposalStore::len`]. A record is always replaced as a whole. The model
//! of a store is the map from ids to the proposals that the records hold.

use vstd::prelude::*;
use crate::proposal::{Proposal, ProposalView};
use crate::record::{decode_record, encode_record, lemma_decode_encode, storable, MAX_RECORD_SIZE};
use crate::table::{
    table_get, table_insert, table_len, table_new, table_open, table_records, RecordTable,
};

verus! {

/// Why the store refused a write.
#[derive(Clone, Copy, Debug, PartialEq, Eq, Structural)]
pub enum StoreError {
    /// The record would be longer than [`MAX_RECORD_SIZE`] bytes.
    RecordTooLarge,
}

/// Proposals in durable storage, keyed by id. The table lies in the default
/// stable memory, of which a process has one: a process keeps one store.
pub struct ProposalStore {
    table: RecordTable,
}

/// Whether `bytes` are the stored form of a proposal, as
/// [`Proposal::to_bytes`] writes it.
pub open spec fn sound_record(bytes: Seq<u8>) -> bool {
    &&& bytes.len() <= MAX_RECORD_SIZE
    &&& decode_record(bytes) is Some
    &&& encode_record(decode_record(bytes).unwrap()) == bytes
}

impl View for ProposalStore {
    type V = Map<u64, ProposalView>;

    open spec fn view(&self) -> Map<u64, ProposalView> {
        Map::new(
            |key: u64| self.records().contains_key(key),
            |key: u64| decode_record(self.records()[key]).unwrap(),
        )
    }
}

impl ProposalStore {
    /// The records in the table, by key.
    pub closed spec fn records(&self) -> Map<u64, Seq<u8>> {
        table_records(self.table)
    }

    /// Every record in the table is the stored form of a proposal, and there
    /// are finitely many.
    pub open spec fn wf(&self) -> bool {
        &&& self.records().dom().finite()
        &&& forall|key: u64| #[trigger]
            self.records().contains_key(key) ==> sound_record(self.records()[key])
    }

    /// A well-formed store holds finitely many proposals, each of them small
    /// enough to be stored.
    pub proof fn lemma_wf(&self)
        requires
            self.wf(),
        ensures
            self@.dom().finite(),
            forall|key: u64| #[trigger] self@.contains_key(key) ==> storable(self@[key]),
    {
        assert(self@.dom() =~= self.records().dom());
        assert forall|key: u64| #[trigger] self@.contains_key(key) implies storable(
            self@[key],
        ) by {
            assert(self.records().contains_key(key));
        }
    }

    /// An empty store. Whatever the memory held before is given up.
    pub fn new() -> (store: ProposalStore)
        ensures
            store.wf(),
            store@ == Map::<u64, ProposalView>::empty(),
    {
        let store = ProposalStore { table: table_new() };
        assert(store@ =~= Map::<u64, ProposalView>::empty());
        store
    }

    /// The store that the memory holds, or an empty one if it holds none.
    /// Nothing is known of its records until they have been looked at.
    pub(crate) fn load() -> (store: ProposalStore) {
        ProposalStore { table: table_open() }
    }

    /// The number of records.
    pub fn len(&self) -> (n: u64)
        ensures
            self.records().dom().finite(),
            n == self.records().dom().len(),
            n == self@.dom().len(),
    {
        assert(self@.dom() =~= self.records().dom());
        table_len(&self.table)
    }

    /// The record under `key` as it is stored, if there is one.
    pub fn record(&self, key: u64) -> (r: Option<Vec<u8>>)
        ensures
            r is Some <==> self.records().contains_key(key),
            r matches Some(bytes) ==> bytes@ == self.records()[key],
    {
        table_get(&self.table, key)
    }

    /// The proposal under `key`, if there is one.
    pub fn get(&self, key: u64) -> (r: Option<Proposal>)
        requires
            self.wf(),
        ensures
            r is Some <==> self@.contains_key(key),
            r matches Some(p) ==> p@ == self@[key],
    {
        match table_get(&self.table, key) {
            Some(bytes) => Proposal::from_bytes(bytes.as_slice()),
            None => None,
        }
    }

    /// Stores `proposal` under `key` in place of what was there, and returns
    /// what was there. A proposal that is too large is refused, and the store
    /// stays as it was.
    pub fn put(&mut self, key: u64, proposal: &Proposal) -> (r: Result<Option<Proposal>, StoreError>)
        requires
            old(self).wf(),
        ensures
            final(self).wf(),
            r is Ok <==> storable(proposal@),
            r is Ok ==> final(self).records() == old(self).records().insert(
                key,
                encode_record(proposal@),
            ),
            r is Ok ==> final(self)@ == old(self)@.insert(key, proposal@),
            r matches Ok(prev) ==> (prev is Some <==> old(self)@.contains_key(key)),
            r matches Ok(Some(p)) ==> p@ == old(self)@[key],
            r is Err ==> r == Err::<Option<Proposal>, StoreError>(StoreError::RecordTooLarge)
                && *final(self) == *old(self),
    {
        let bytes = match proposal.to_bytes() {
            Some(bytes) => bytes,
            None => {
                return Err(StoreError::RecordTooLarge);
            },
        };
        proof {
            lemma_decode_encode(proposal@);
        }
        let prev = table_insert(&mut self.table, key, &bytes);
        assert(self@ =~= old(self)@.insert(key, proposal@));
        match prev {
            Some(prev_bytes) => Ok(Proposal::from_bytes(prev_bytes.as_slice())),
            None => Ok(None),
        }
    }
}

} // verus!
