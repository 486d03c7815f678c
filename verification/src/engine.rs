//! The sync engine: stateless entry points that walk unsynced chain tips
//! backward, index each header into the mapping store, and persist the tip
//! set. Each contract states equality with the transition functions of
//! [`crate::model`], so the effect on the persisted state is pinned exactly.

use vstd::prelude::*;

use crate::chain::{ChainBackend, RuntimeInfo};
use crate::consensus::find_log;
use crate::model::{
    fetch_spec, run_spec, step_spec, sync_block_spec, sync_genesis_spec, FetchModel, WalkModel,
    walk_spec, seeded_tips,
};
use crate::store::{MappingDb, TipStore};
use crate::types::{FindLogError, Header, MappingCommitment, SyncError, SyncStrategy};

verus! {

/// Indexes one ordinary (non-genesis) header: writes its decoded commitment,
/// or the no-commitment marker when the digest embeds no log, and fails on an
/// ambiguous digest, leaving the store untouched.
pub fn sync_block(mapping: &mut MappingDb, header: &Header) -> (r: Result<(), SyncError>)
    ensures
        match sync_block_spec(old(mapping)@, header@) {
            Ok(written) => r is Ok && final(mapping)@ == written,
            Err(e) => r == Err::<(), SyncError>(e) && final(mapping)@ == old(mapping)@,
        },
{
    match find_log(&header.digest) {
        Ok(post_hashes) => {
            let transaction_hashes = post_hashes.transaction_hashes.clone();
            proof {
                assert(transaction_hashes@ =~= post_hashes.transaction_hashes@);
            }
            let commitment = MappingCommitment {
                block_hash: header.hash,
                ethereum_block_hash: post_hashes.block_hash,
                ethereum_transaction_hashes: transaction_hashes,
            };
            mapping.write_hashes(commitment);
            Ok(())
        },
        Err(FindLogError::NotFound) => {
            mapping.write_none(header.hash);
            Ok(())
        },
        Err(FindLogError::MultipleLogs) => Err(SyncError::MultipleLogs),
    }
}

/// Indexes the genesis header from runtime state: without the secondary
/// chain's API at genesis it writes the marker; with the API it writes a
/// commitment for the reported secondary genesis block, which carries no
/// transactions, and fails when none is reported.
pub fn sync_genesis_block(runtime: &RuntimeInfo, mapping: &mut MappingDb, header: &Header) -> (r:
    Result<(), SyncError>)
    ensures
        match sync_genesis_spec(*runtime, old(mapping)@, header@) {
            Ok(written) => r is Ok && final(mapping)@ == written,
            Err(e) => r == Err::<(), SyncError>(e) && final(mapping)@ == old(mapping)@,
        },
{
    match runtime.api_version() {
        Some(_) => match runtime.current_block_hash() {
            Some(genesis_hash) => {
                let transaction_hashes: Vec<u64> = Vec::new();
                proof {
                    assert(transaction_hashes@ =~= Seq::<u64>::empty());
                }
                let commitment = MappingCommitment {
                    block_hash: header.hash,
                    ethereum_block_hash: genesis_hash,
                    ethereum_transaction_hashes: transaction_hashes,
                };
                mapping.write_hashes(commitment);
                Ok(())
            },
            None => Err(SyncError::GenesisNotFound),
        },
        None => {
            mapping.write_none(header.hash);
            Ok(())
        },
    }
}

/// Examines one candidate tip: an already-synced hash or a header below the
/// sync floor is skipped without error, an unresolvable hash is fatal, and
/// any other header is returned ready for processing.
pub fn fetch_header<'a>(
    mapping: &MappingDb,
    chain: &'a ChainBackend,
    checking_tip: u64,
    sync_from: u64,
) -> (r: Result<Option<&'a Header>, SyncError>)
    ensures
        match r {
            Ok(Some(h)) => fetch_spec(chain@, mapping@, checking_tip, sync_from)
                == FetchModel::Ready(h@),
            Ok(None) => fetch_spec(chain@, mapping@, checking_tip, sync_from) is Skip,
            Err(e) => e == SyncError::HeaderNotFound && fetch_spec(
                chain@,
                mapping@,
                checking_tip,
                sync_from,
            ) is Missing,
        },
{
    if mapping.is_synced(checking_tip) {
        return Ok(None);
    }
    match chain.header(checking_tip) {
        Some(checking_header) => {
            if checking_header.number >= sync_from {
                Ok(Some(checking_header))
            } else {
                Ok(None)
            }
        },
        None => Err(SyncError::HeaderNotFound),
    }
}

/// Performs at most one unit of indexing work and reports whether any was
/// done. Loads the tip set (reseeding it from the current leaves when it is
/// empty), pops tips until a header is ready, and processes that header:
/// genesis through the runtime-state path, any other through the digest path,
/// unless parachain pacing defers it. Persisted state and result equal
/// `step_spec` on the incoming state.
#[verifier::loop_isolation(false)]
pub fn sync_one_block(
    chain: &ChainBackend,
    runtime: &RuntimeInfo,
    mapping: &mut MappingDb,
    tips: &mut TipStore,
    sync_from: u64,
    strategy: SyncStrategy,
) -> (r: Result<bool, SyncError>)
    ensures
        ({
            let step = step_spec(chain@, *runtime, old(mapping)@, old(tips)@, sync_from, strategy);
            &&& final(mapping)@ == step.mapping
            &&& final(tips)@ == step.tips
            &&& r == step.outcome
        }),
{
    let mut current_syncing_tips = tips.current_syncing_tips();
    if current_syncing_tips.len() == 0 {
        let leaves = chain.leaves();
        if leaves.len() == 0 {
            return Ok(false);
        }
        current_syncing_tips = leaves;
    }
    let ghost seeded = current_syncing_tips@;
    proof {
        assert(seeded == seeded_tips(chain@, old(tips)@));
    }

    let mut operating_header: Option<&Header> = None;
    while operating_header.is_none() && current_syncing_tips.len() > 0
        invariant
            mapping@ == old(mapping)@,
            tips@ == old(tips)@,
            match operating_header {
                None => walk_spec(chain@, mapping@, current_syncing_tips@, sync_from) == walk_spec(
                    chain@,
                    old(mapping)@,
                    seeded,
                    sync_from,
                ),
                Some(h) => walk_spec(chain@, old(mapping)@, seeded, sync_from) == (
                WalkModel::Ready { remaining: current_syncing_tips@, header: h@ }),
            },
        decreases current_syncing_tips@.len(),
    {
        let ghost before_pop = current_syncing_tips@;
        let checking_tip = current_syncing_tips.pop().unwrap();
        proof {
            assert(before_pop.last() == checking_tip);
            assert(before_pop.drop_last() =~= current_syncing_tips@);
        }
        match fetch_header(mapping, chain, checking_tip, sync_from) {
            Ok(Some(checking_header)) => {
                operating_header = Some(checking_header);
            },
            Ok(None) => {},
            Err(e) => {
                return Err(e);
            },
        }
    }

    let operating_header = match operating_header {
        Some(h) => h,
        None => {
            proof {
                assert(current_syncing_tips@ =~= Seq::<u64>::empty());
            }
            tips.write_current_syncing_tips(current_syncing_tips);
            return Ok(false);
        },
    };

    if operating_header.number == 0 {
        match sync_genesis_block(runtime, mapping, operating_header) {
            Ok(_) => {
                tips.write_current_syncing_tips(current_syncing_tips);
                Ok(true)
            },
            Err(e) => Err(e),
        }
    } else {
        if strategy == SyncStrategy::Parachain && operating_header.number
            > chain.best_known_number() {
            return Ok(false);
        }
        match sync_block(mapping, operating_header) {
            Ok(_) => {
                current_syncing_tips.push(operating_header.parent_hash);
                tips.write_current_syncing_tips(current_syncing_tips);
                Ok(true)
            },
            Err(e) => Err(e),
        }
    }
}

/// Runs the single-step entry point up to `limit` times and reports whether
/// any call performed work, so a driver can stop calling once the chain is
/// caught up. A fatal step stops the run at once. Persisted state and result
/// equal `run_spec` on the incoming state.
#[verifier::loop_isolation(false)]
pub fn sync_blocks(
    chain: &ChainBackend,
    runtime: &RuntimeInfo,
    mapping: &mut MappingDb,
    tips: &mut TipStore,
    limit: usize,
    sync_from: u64,
    strategy: SyncStrategy,
) -> (r: Result<bool, SyncError>)
    ensures
        ({
            let run = run_spec(
                chain@,
                *runtime,
                old(mapping)@,
                old(tips)@,
                sync_from,
                strategy,
                limit as nat,
                false,
            );
            &&& final(mapping)@ == run.mapping
            &&& final(tips)@ == run.tips
            &&& r == run.outcome
        }),
{
    let mut synced_any = false;
    let mut i: usize = 0;
    while i < limit
        invariant
            i <= limit,
            run_spec(
                chain@,
                *runtime,
                old(mapping)@,
                old(tips)@,
                sync_from,
                strategy,
                limit as nat,
                false,
            ) == run_spec(
                chain@,
                *runtime,
                mapping@,
                tips@,
                sync_from,
                strategy,
                (limit - i) as nat,
                synced_any,
            ),
        decreases limit - i,
    {
        match sync_one_block(chain, runtime, mapping, tips, sync_from, strategy) {
            Ok(did_work) => {
                synced_any = synced_any || did_work;
            },
            Err(e) => {
                return Err(e);
            },
        }
        i = i + 1;
    }
    Ok(synced_any)
}

} // verus!
