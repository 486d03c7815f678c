//! The mathematical model of the sync engine: one total transition function
//! per engine operation, over the views of the stores and the chain backend.
//! The executable engine's contracts state equality with these functions, so
//! every caller sees exactly what a step does to the persisted state.

use vstd::prelude::*;

use crate::chain::{ChainModel, RuntimeInfo};
use crate::consensus::{embedded_log, log_count};
use crate::types::{EntryModel, HeaderModel, SyncError, SyncStrategy};

verus! {

/// What examining one candidate tip yields.
pub enum FetchModel {
    /// The branch needs no work here: the hash is already synced, or its
    /// header sits below the sync floor.
    Skip,
    /// The backend cannot resolve the hash: a fatal condition.
    Missing,
    /// A header ready for processing.
    Ready(HeaderModel),
}

/// Examines one candidate tip: synced or below-floor hashes are skipped, an
/// unresolvable hash is fatal, anything else yields its header.
pub open spec fn fetch_spec(
    chain: ChainModel,
    mapping: Map<u64, EntryModel>,
    tip: u64,
    sync_from: u64,
) -> FetchModel {
    if mapping.contains_key(tip) {
        FetchModel::Skip
    } else if !chain.headers.contains_key(tip) {
        FetchModel::Missing
    } else if chain.headers[tip].number < sync_from {
        FetchModel::Skip
    } else {
        FetchModel::Ready(chain.headers[tip])
    }
}

/// What popping tips until one is ready yields.
pub enum WalkModel {
    /// Every tip was skipped; the tip set is used up.
    Exhausted,
    /// Some tip could not be resolved: a fatal condition.
    Missing,
    /// A header is ready; `remaining` is the tip set still to be walked.
    Ready { remaining: Seq<u64>, header: HeaderModel },
}

/// Pops tips from the top of the stack until one yields a ready header, a
/// tip is unresolvable, or the stack is used up.
pub open spec fn walk_spec(
    chain: ChainModel,
    mapping: Map<u64, EntryModel>,
    tips: Seq<u64>,
    sync_from: u64,
) -> WalkModel
    decreases tips.len(),
{
    if tips.len() == 0 {
        WalkModel::Exhausted
    } else {
        match fetch_spec(chain, mapping, tips.last(), sync_from) {
            FetchModel::Skip => walk_spec(chain, mapping, tips.drop_last(), sync_from),
            FetchModel::Missing => WalkModel::Missing,
            FetchModel::Ready(header) => WalkModel::Ready {
                remaining: tips.drop_last(),
                header,
            },
        }
    }
}

/// The mapping record that an ordinary (non-genesis) header with exactly one
/// embedded commitment log produces.
pub open spec fn commitment_entry(header: HeaderModel) -> EntryModel {
    EntryModel::Commitment {
        ethereum_block_hash: embedded_log(header.digest).block_hash,
        ethereum_transaction_hashes: embedded_log(header.digest).transaction_hashes,
    }
}

/// Indexing one ordinary header: exactly one embedded log writes its
/// commitment, none writes the marker, several are fatal.
pub open spec fn sync_block_spec(mapping: Map<u64, EntryModel>, header: HeaderModel) -> Result<
    Map<u64, EntryModel>,
    SyncError,
> {
    if log_count(header.digest) == 1 {
        Ok(mapping.insert(header.hash, commitment_entry(header)))
    } else if log_count(header.digest) == 0 {
        Ok(mapping.insert(header.hash, EntryModel::Empty))
    } else {
        Err(SyncError::MultipleLogs)
    }
}

/// Indexing the genesis header from runtime state: no secondary-chain API at
/// genesis writes the marker; the API without a genesis block is fatal; a
/// reported genesis block writes a commitment with no transactions.
pub open spec fn sync_genesis_spec(
    runtime: RuntimeInfo,
    mapping: Map<u64, EntryModel>,
    header: HeaderModel,
) -> Result<Map<u64, EntryModel>, SyncError> {
    match runtime.api_version {
        None => Ok(mapping.insert(header.hash, EntryModel::Empty)),
        Some(_) => match runtime.ethereum_genesis_hash {
            None => Err(SyncError::GenesisNotFound),
            Some(genesis_hash) => Ok(
                mapping.insert(
                    header.hash,
                    EntryModel::Commitment {
                        ethereum_block_hash: genesis_hash,
                        ethereum_transaction_hashes: Seq::<u64>::empty(),
                    },
                ),
            ),
        },
    }
}

/// The persisted state after an engine call, with the call's result.
pub struct StepModel {
    pub mapping: Map<u64, EntryModel>,
    pub tips: Seq<u64>,
    pub outcome: Result<bool, SyncError>,
}

/// The tip set a step works on: the persisted one, or the current leaves
/// when the persisted one is empty.
pub open spec fn seeded_tips(chain: ChainModel, tips: Seq<u64>) -> Seq<u64> {
    if tips.len() == 0 {
        chain.leaves
    } else {
        tips
    }
}

/// One unit of indexing work, as performed by the single-step entry point:
/// seed the tip set from the leaves if it is empty, walk it for a ready
/// header, and process that header. The fields give the persisted mapping
/// store and tip set after the call; fatal outcomes persist nothing.
pub open spec fn step_spec(
    chain: ChainModel,
    runtime: RuntimeInfo,
    mapping: Map<u64, EntryModel>,
    tips: Seq<u64>,
    sync_from: u64,
    strategy: SyncStrategy,
) -> StepModel {
    let seeded = seeded_tips(chain, tips);
    if seeded.len() == 0 {
        StepModel { mapping, tips, outcome: Ok(false) }
    } else {
        match walk_spec(chain, mapping, seeded, sync_from) {
            WalkModel::Exhausted => StepModel {
                mapping,
                tips: Seq::<u64>::empty(),
                outcome: Ok(false),
            },
            WalkModel::Missing => StepModel {
                mapping,
                tips,
                outcome: Err(SyncError::HeaderNotFound),
            },
            WalkModel::Ready { remaining, header } => {
                if header.number == 0 {
                    match sync_genesis_spec(runtime, mapping, header) {
                        Ok(written) => StepModel {
                            mapping: written,
                            tips: remaining,
                            outcome: Ok(true),
                        },
                        Err(e) => StepModel { mapping, tips, outcome: Err(e) },
                    }
                } else if strategy is Parachain && header.number > chain.best_number {
                    StepModel { mapping, tips, outcome: Ok(false) }
                } else {
                    match sync_block_spec(mapping, header) {
                        Ok(written) => StepModel {
                            mapping: written,
                            tips: remaining.push(header.parent_hash),
                            outcome: Ok(true),
                        },
                        Err(e) => StepModel { mapping, tips, outcome: Err(e) },
                    }
                }
            },
        }
    }
}

/// Up to `limit` single steps in sequence, reporting whether any step
/// performed work; a fatal step stops the run and keeps the state the failed
/// step left behind.
pub open spec fn run_spec(
    chain: ChainModel,
    runtime: RuntimeInfo,
    mapping: Map<u64, EntryModel>,
    tips: Seq<u64>,
    sync_from: u64,
    strategy: SyncStrategy,
    limit: nat,
    synced_any: bool,
) -> StepModel
    decreases limit,
{
    if limit == 0 {
        StepModel { mapping, tips, outcome: Ok(synced_any) }
    } else {
        let step = step_spec(chain, runtime, mapping, tips, sync_from, strategy);
        match step.outcome {
            Err(_) => step,
            Ok(did_work) => run_spec(
                chain,
                runtime,
                step.mapping,
                step.tips,
                sync_from,
                strategy,
                (limit - 1) as nat,
                synced_any || did_work,
            ),
        }
    }
}

} // verus!
