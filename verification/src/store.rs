//! The persisted collaborators of the engine: the mapping store, keyed by
//! primary block hash and holding a commitment or a no-commitment marker, and
//! the progress store that keeps the tip set between invocations.

use std::collections::HashMap;

use vstd::prelude::*;

use crate::types::{EntryModel, MappingCommitment, MappingEntry};

verus! {

broadcast use vstd::std_specs::hash::group_hash_axioms;

/// The mapping store: one write-once record per synced primary block hash.
pub struct MappingDb {
    entries: HashMap<u64, MappingEntry>,
}

impl View for MappingDb {
    type V = Map<u64, EntryModel>;

    closed spec fn view(&self) -> Map<u64, EntryModel> {
        Map::new(
            |h: u64| self.entries@.dom().contains(h),
            |h: u64| self.entries@[h]@,
        )
    }
}

impl MappingDb {
    /// An empty mapping store.
    pub fn new() -> (r: MappingDb)
        ensures
            r@ == Map::<u64, EntryModel>::empty(),
    {
        let r = MappingDb { entries: HashMap::new() };
        proof {
            assert(r@ =~= Map::<u64, EntryModel>::empty());
        }
        r
    }

    /// Whether the store already holds a record (commitment or marker) for
    /// the given primary block hash.
    pub fn is_synced(&self, block_hash: u64) -> (r: bool)
        ensures
            r == self@.contains_key(block_hash),
    {
        self.entries.contains_key(&block_hash)
    }

    /// Writes a decoded commitment, keyed by its primary block hash.
    pub fn write_hashes(&mut self, commitment: MappingCommitment)
        ensures
            final(self)@ == old(self)@.insert(
                commitment.block_hash,
                EntryModel::Commitment {
                    ethereum_block_hash: commitment@.ethereum_block_hash,
                    ethereum_transaction_hashes: commitment@.ethereum_transaction_hashes,
                },
            ),
    {
        let MappingCommitment { block_hash, ethereum_block_hash, ethereum_transaction_hashes } =
            commitment;
        self.entries.insert(
            block_hash,
            MappingEntry::Commitment { ethereum_block_hash, ethereum_transaction_hashes },
        );
        proof {
            assert(self@ =~= old(self)@.insert(
                commitment.block_hash,
                EntryModel::Commitment {
                    ethereum_block_hash: commitment@.ethereum_block_hash,
                    ethereum_transaction_hashes: commitment@.ethereum_transaction_hashes,
                },
            ));
        }
    }

    /// Writes the no-commitment marker for a primary block hash.
    pub fn write_none(&mut self, block_hash: u64)
        ensures
            final(self)@ == old(self)@.insert(block_hash, EntryModel::Empty),
    {
        self.entries.insert(block_hash, MappingEntry::Empty);
        proof {
            assert(self@ =~= old(self)@.insert(block_hash, EntryModel::Empty));
        }
    }

    /// The record held for a primary block hash, if any.
    pub fn entry_of(&self, block_hash: u64) -> (r: Option<&MappingEntry>)
        ensures
            match r {
                Some(e) => self@.contains_key(block_hash) && e@ == self@[block_hash],
                None => !self@.contains_key(block_hash),
            },
    {
        self.entries.get(&block_hash)
    }

    /// How many primary block hashes have a record.
    pub fn len(&self) -> (r: usize)
        ensures
            r == self@.len(),
    {
        proof {
            assert(self@.dom() =~= self.entries@.dom());
        }
        self.entries.len()
    }
}

/// The progress store: the persisted tip set, read whole at the start of a
/// sync step and written back whole when the step persists progress.
pub struct TipStore {
    tips: Vec<u64>,
}

impl View for TipStore {
    type V = Seq<u64>;

    closed spec fn view(&self) -> Seq<u64> {
        self.tips@
    }
}

impl TipStore {
    /// An empty tip set.
    pub fn new() -> (r: TipStore)
        ensures
            r@ == Seq::<u64>::empty(),
    {
        TipStore { tips: Vec::new() }
    }

    /// A copy of the persisted tip set.
    pub fn current_syncing_tips(&self) -> (r: Vec<u64>)
        ensures
            r@ == self@,
    {
        let r = self.tips.clone();
        proof {
            assert(r@ =~= self.tips@);
        }
        r
    }

    /// Replaces the persisted tip set.
    pub fn write_current_syncing_tips(&mut self, tips: Vec<u64>)
        ensures
            final(self)@ == tips@,
    {
        self.tips = tips;
    }
}

} // verus!
