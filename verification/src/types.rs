//! Data model of the indexer: primary-chain headers with their embedded
//! digest logs, the records kept by the mapping store, and the engine's
//! strategy and error enumerations, each with a mathematical view.

use vstd::prelude::*;

verus! {

/// Pacing mode of a sync session. A standalone chain may index every header
/// it can resolve; a parachain must not index a header whose number exceeds
/// the chain backend's best-known number.
#[derive(Clone, Copy, Debug, PartialEq, Eq, Structural)]
pub enum SyncStrategy {
    Standalone,
    Parachain,
}

/// A fatal outcome of a sync step. Benign conditions (already-synced branch,
/// below-floor header, empty leaf set, deferred parachain pacing) are not
/// errors: the engine reports them as "no work done".
#[derive(Clone, Copy, Debug, PartialEq, Eq, Structural)]
pub enum SyncError {
    /// The tip set referenced a hash that the chain backend cannot resolve.
    HeaderNotFound,
    /// A header embeds more than one commitment log.
    MultipleLogs,
    /// The runtime exposes the secondary-chain API at genesis, yet reports no
    /// genesis block.
    GenesisNotFound,
}

/// Outcome of scanning a digest for the embedded commitment log.
#[derive(Clone, Copy, Debug, PartialEq, Eq, Structural)]
pub enum FindLogError {
    /// The digest holds no commitment log.
    NotFound,
    /// The digest holds several commitment logs.
    MultipleLogs,
}

/// The payload of an embedded commitment log: the secondary-chain block hash
/// and the ordered hashes of its transactions.
#[derive(Debug, PartialEq, Eq)]
pub struct PostHashes {
    pub block_hash: u64,
    pub transaction_hashes: Vec<u64>,
}

/// Mathematical view of [`PostHashes`].
pub struct PostHashesModel {
    pub block_hash: u64,
    pub transaction_hashes: Seq<u64>,
}

impl View for PostHashes {
    type V = PostHashesModel;

    open spec fn view(&self) -> PostHashesModel {
        PostHashesModel {
            block_hash: self.block_hash,
            transaction_hashes: self.transaction_hashes@,
        }
    }
}

/// One item of a header's digest: either an embedded commitment log or an
/// item of no interest to the indexer.
#[derive(Debug, PartialEq, Eq)]
pub enum DigestItem {
    Commitment(PostHashes),
    Other,
}

/// Mathematical view of [`DigestItem`].
pub enum DigestModel {
    Commitment(PostHashesModel),
    Other,
}

impl View for DigestItem {
    type V = DigestModel;

    open spec fn view(&self) -> DigestModel {
        match self {
            DigestItem::Commitment(p) => DigestModel::Commitment(p@),
            DigestItem::Other => DigestModel::Other,
        }
    }
}

/// A primary-chain header, as the engine reads it: its own hash, the hash of
/// its parent, its height, and its digest items.
#[derive(Debug, PartialEq, Eq)]
pub struct Header {
    pub hash: u64,
    pub parent_hash: u64,
    pub number: u64,
    pub digest: Vec<DigestItem>,
}

/// Mathematical view of [`Header`].
pub struct HeaderModel {
    pub hash: u64,
    pub parent_hash: u64,
    pub number: u64,
    pub digest: Seq<DigestModel>,
}

impl View for Header {
    type V = HeaderModel;

    open spec fn view(&self) -> HeaderModel {
        HeaderModel {
            hash: self.hash,
            parent_hash: self.parent_hash,
            number: self.number,
            digest: self.digest@.map_values(|d: DigestItem| d@),
        }
    }
}

/// A record to be written to the mapping store: the primary block hash it is
/// keyed by, together with the secondary block hash and transaction hashes.
#[derive(Debug, PartialEq, Eq)]
pub struct MappingCommitment {
    pub block_hash: u64,
    pub ethereum_block_hash: u64,
    pub ethereum_transaction_hashes: Vec<u64>,
}

/// Mathematical view of [`MappingCommitment`].
pub struct CommitmentModel {
    pub block_hash: u64,
    pub ethereum_block_hash: u64,
    pub ethereum_transaction_hashes: Seq<u64>,
}

impl View for MappingCommitment {
    type V = CommitmentModel;

    open spec fn view(&self) -> CommitmentModel {
        CommitmentModel {
            block_hash: self.block_hash,
            ethereum_block_hash: self.ethereum_block_hash,
            ethereum_transaction_hashes: self.ethereum_transaction_hashes@,
        }
    }
}

/// What the mapping store holds for a primary block hash: either a decoded
/// commitment or a marker that the block carries no secondary-chain activity.
/// Both count as "synced".
#[derive(Debug, PartialEq, Eq)]
pub enum MappingEntry {
    Commitment { ethereum_block_hash: u64, ethereum_transaction_hashes: Vec<u64> },
    Empty,
}

/// Mathematical view of [`MappingEntry`].
pub enum EntryModel {
    Commitment { ethereum_block_hash: u64, ethereum_transaction_hashes: Seq<u64> },
    Empty,
}

impl View for MappingEntry {
    type V = EntryModel;

    open spec fn view(&self) -> EntryModel {
        match self {
            MappingEntry::Commitment { ethereum_block_hash, ethereum_transaction_hashes } => {
                EntryModel::Commitment {
                    ethereum_block_hash: *ethereum_block_hash,
                    ethereum_transaction_hashes: ethereum_transaction_hashes@,
                }
            },
            MappingEntry::Empty => EntryModel::Empty,
        }
    }
}

} // verus!
