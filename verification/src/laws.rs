//! Laws of the sync engine, proved over the transition functions of
//! [`crate::model`]: idempotence of an idle round, write-once growth of the
//! mapping store, respect of the sync floor, parachain pacing, the genesis
//! special case, and resumability of a bounded run.

use vstd::prelude::*;

use crate::chain::{chain_wf, ChainModel, RuntimeInfo};
use crate::model::{
    fetch_spec, run_spec, seeded_tips, step_spec, walk_spec, FetchModel, WalkModel,
};
use crate::types::{EntryModel, SyncError, SyncStrategy};

verus! {

/// How the walk decomposes the tip stack: on exhaustion every tip was
/// skipped; on a ready header, the stack splits into the kept prefix
/// (`remaining`), the tip that fetched ready, and a skipped suffix.
pub(crate) proof fn lemma_walk_structure(
    chain: ChainModel,
    mapping: Map<u64, EntryModel>,
    tips: Seq<u64>,
    sync_from: u64,
)
    ensures
        match walk_spec(chain, mapping, tips, sync_from) {
            WalkModel::Exhausted => forall|i: int|
                0 <= i < tips.len() ==> fetch_spec(chain, mapping, tips[i], sync_from) is Skip,
            WalkModel::Missing => true,
            WalkModel::Ready { remaining, header } => {
                &&& remaining.len() < tips.len()
                &&& remaining == tips.take(remaining.len() as int)
                &&& fetch_spec(chain, mapping, tips[remaining.len() as int], sync_from)
                    == FetchModel::Ready(header)
                &&& forall|i: int|
                    remaining.len() < i < tips.len() ==> fetch_spec(
                        chain,
                        mapping,
                        tips[i],
                        sync_from,
                    ) is Skip
            },
        },
    decreases tips.len(),
{
    if tips.len() == 0 {
    } else {
        match fetch_spec(chain, mapping, tips.last(), sync_from) {
            FetchModel::Skip => {
                lemma_walk_structure(chain, mapping, tips.drop_last(), sync_from);
                assert forall|i: int| 0 <= i < tips.len() - 1 implies tips.drop_last()[i] == tips[i]
                by {}
                match walk_spec(chain, mapping, tips.drop_last(), sync_from) {
                    WalkModel::Ready { remaining, header: _ } => {
                        assert(tips.take(remaining.len() as int) =~= tips.drop_last().take(
                            remaining.len() as int,
                        ));
                    },
                    _ => {},
                }
            },
            FetchModel::Missing => {},
            FetchModel::Ready(_) => {
                assert(tips.drop_last() =~= tips.take(tips.len() - 1));
            },
        }
    }
}

/// A ready header produced by walking the tip set was fetched for one of the
/// tips: it is held by the backend, not yet synced, and not below the floor.
pub(crate) proof fn lemma_walk_ready(
    chain: ChainModel,
    mapping: Map<u64, EntryModel>,
    tips: Seq<u64>,
    sync_from: u64,
)
    ensures
        walk_spec(chain, mapping, tips, sync_from) matches WalkModel::Ready {
            remaining: _,
            header,
        } ==> exists|t: u64|
            #[trigger] chain.headers.contains_key(t) && header == chain.headers[t]
                && !mapping.contains_key(t) && header.number >= sync_from,
    decreases tips.len(),
{
    if tips.len() == 0 {
    } else {
        match fetch_spec(chain, mapping, tips.last(), sync_from) {
            FetchModel::Skip => {
                lemma_walk_ready(chain, mapping, tips.drop_last(), sync_from);
            },
            FetchModel::Missing => {},
            FetchModel::Ready(header) => {
                assert(chain.headers.contains_key(tips.last()) && header == chain.headers[
                    tips.last()
                ] && !mapping.contains_key(tips.last()) && header.number >= sync_from);
            },
        }
    }
}

/// Characterizes how one step changes the mapping store: every existing
/// record is kept unchanged, and any new record is keyed by a header the
/// backend resolves, at or above the floor, and within pacing under the
/// parachain strategy.
pub(crate) proof fn lemma_step_new_keys(
    chain: ChainModel,
    runtime: RuntimeInfo,
    mapping: Map<u64, EntryModel>,
    tips: Seq<u64>,
    sync_from: u64,
    strategy: SyncStrategy,
)
    requires
        chain_wf(chain),
    ensures
        ({
            let step = step_spec(chain, runtime, mapping, tips, sync_from, strategy);
            &&& forall|k: u64| #[trigger]
                mapping.contains_key(k) ==> step.mapping.contains_key(k) && step.mapping[k]
                    == mapping[k]
            &&& forall|k: u64|
                #[trigger] step.mapping.contains_key(k) && !mapping.contains_key(k)
                    ==> chain.headers.contains_key(k) && chain.headers[k].number >= sync_from && (
                strategy is Parachain ==> chain.headers[k].number <= chain.best_number)
        }),
{
    let seeded = seeded_tips(chain, tips);
    lemma_walk_ready(chain, mapping, seeded, sync_from);
    if seeded.len() > 0 {
        match walk_spec(chain, mapping, seeded, sync_from) {
            WalkModel::Ready { remaining, header } => {
                let t = choose|t: u64|
                    #[trigger] chain.headers.contains_key(t) && header == chain.headers[t]
                        && !mapping.contains_key(t) && header.number >= sync_from;
                assert(header.hash == t);
            },
            _ => {},
        }
    }
}

/// Write-once growth of the mapping store (per bounded run): a record, once
/// written for a primary block hash, is never changed or removed by any
/// number of later steps, so every synced hash keeps exactly the one record
/// first written for it.
pub proof fn lemma_run_writes_each_hash_once(
    chain: ChainModel,
    runtime: RuntimeInfo,
    mapping: Map<u64, EntryModel>,
    tips: Seq<u64>,
    sync_from: u64,
    strategy: SyncStrategy,
    limit: nat,
    synced_any: bool,
)
    requires
        chain_wf(chain),
    ensures
        ({
            let run = run_spec(chain, runtime, mapping, tips, sync_from, strategy, limit, synced_any);
            forall|k: u64| #[trigger]
                mapping.contains_key(k) ==> run.mapping.contains_key(k) && run.mapping[k]
                    == mapping[k]
        }),
    decreases limit,
{
    if limit == 0 {
    } else {
        lemma_step_new_keys(chain, runtime, mapping, tips, sync_from, strategy);
        let step = step_spec(chain, runtime, mapping, tips, sync_from, strategy);
        match step.outcome {
            Err(_) => {},
            Ok(did_work) => {
                lemma_run_writes_each_hash_once(
                    chain,
                    runtime,
                    step.mapping,
                    step.tips,
                    sync_from,
                    strategy,
                    (limit - 1) as nat,
                    synced_any || did_work,
                );
            },
        }
    }
}

/// Progress: a step that reports work done has written a record for exactly
/// one primary block hash that had none before, and has touched nothing
/// else — so the mapping store grows by one record per unit of work until
/// the walk is caught up.
pub proof fn lemma_working_step_syncs_one_new_hash(
    chain: ChainModel,
    runtime: RuntimeInfo,
    mapping: Map<u64, EntryModel>,
    tips: Seq<u64>,
    sync_from: u64,
    strategy: SyncStrategy,
)
    requires
        chain_wf(chain),
    ensures
        ({
            let step = step_spec(chain, runtime, mapping, tips, sync_from, strategy);
            &&& step.outcome == Ok::<bool, SyncError>(true) ==> exists|k: u64|
                !(#[trigger] mapping.contains_key(k)) && step.mapping == mapping.insert(
                    k,
                    step.mapping[k],
                )
            &&& step.outcome != Ok::<bool, SyncError>(true) ==> step.mapping == mapping
        }),
{
    let seeded = seeded_tips(chain, tips);
    lemma_walk_ready(chain, mapping, seeded, sync_from);
    if seeded.len() > 0 {
        match walk_spec(chain, mapping, seeded, sync_from) {
            WalkModel::Ready { remaining: _, header } => {
                let t = choose|t: u64|
                    #[trigger] chain.headers.contains_key(t) && header == chain.headers[t]
                        && !mapping.contains_key(t) && header.number >= sync_from;
                assert(header.hash == t);
                let step = step_spec(chain, runtime, mapping, tips, sync_from, strategy);
                if step.outcome == Ok::<bool, SyncError>(true) {
                    assert(!mapping.contains_key(header.hash) && step.mapping == mapping.insert(
                        header.hash,
                        step.mapping[header.hash],
                    ));
                }
            },
            _ => {},
        }
    }
}

/// Floor respect (per bounded run): a run never writes a record for a hash
/// the backend cannot resolve, nor for a header whose number lies below the
/// sync floor.
pub proof fn lemma_run_respects_floor(
    chain: ChainModel,
    runtime: RuntimeInfo,
    mapping: Map<u64, EntryModel>,
    tips: Seq<u64>,
    sync_from: u64,
    strategy: SyncStrategy,
    limit: nat,
    synced_any: bool,
)
    requires
        chain_wf(chain),
    ensures
        ({
            let run = run_spec(chain, runtime, mapping, tips, sync_from, strategy, limit, synced_any);
            forall|k: u64|
                #[trigger] run.mapping.contains_key(k) && !mapping.contains_key(k)
                    ==> chain.headers.contains_key(k) && chain.headers[k].number >= sync_from
        }),
    decreases limit,
{
    if limit == 0 {
    } else {
        lemma_step_new_keys(chain, runtime, mapping, tips, sync_from, strategy);
        let step = step_spec(chain, runtime, mapping, tips, sync_from, strategy);
        match step.outcome {
            Err(_) => {},
            Ok(did_work) => {
                lemma_run_respects_floor(
                    chain,
                    runtime,
                    step.mapping,
                    step.tips,
                    sync_from,
                    strategy,
                    (limit - 1) as nat,
                    synced_any || did_work,
                );
            },
        }
    }
}

/// Parachain pacing (per bounded run): under the parachain strategy a run
/// never writes a record for a header whose number exceeds the backend's
/// best-known number.
pub proof fn lemma_run_parachain_paced(
    chain: ChainModel,
    runtime: RuntimeInfo,
    mapping: Map<u64, EntryModel>,
    tips: Seq<u64>,
    sync_from: u64,
    limit: nat,
    synced_any: bool,
)
    requires
        chain_wf(chain),
    ensures
        ({
            let run = run_spec(
                chain,
                runtime,
                mapping,
                tips,
                sync_from,
                SyncStrategy::Parachain,
                limit,
                synced_any,
            );
            forall|k: u64|
                #[trigger] run.mapping.contains_key(k) && !mapping.contains_key(k)
                    ==> chain.headers.contains_key(k) && chain.headers[k].number
                    <= chain.best_number
        }),
    decreases limit,
{
    if limit == 0 {
    } else {
        lemma_step_new_keys(chain, runtime, mapping, tips, sync_from, SyncStrategy::Parachain);
        let step = step_spec(chain, runtime, mapping, tips, sync_from, SyncStrategy::Parachain);
        match step.outcome {
            Err(_) => {},
            Ok(did_work) => {
                lemma_run_parachain_paced(
                    chain,
                    runtime,
                    step.mapping,
                    step.tips,
                    sync_from,
                    (limit - 1) as nat,
                    synced_any || did_work,
                );
            },
        }
    }
}

/// Parachain pacing, deferral side: when the walk readies a non-genesis
/// header past the best-known number, the step defers — it reports no work
/// done and leaves both persisted stores exactly as they were, so the header
/// remains pending in the tip set.
pub proof fn lemma_parachain_defers_ahead_of_best(
    chain: ChainModel,
    runtime: RuntimeInfo,
    mapping: Map<u64, EntryModel>,
    tips: Seq<u64>,
    sync_from: u64,
)
    ensures
        ({
            let step = step_spec(chain, runtime, mapping, tips, sync_from, SyncStrategy::Parachain);
            walk_spec(chain, mapping, seeded_tips(chain, tips), sync_from) matches WalkModel::Ready {
                remaining: _,
                header,
            } ==> (header.number > chain.best_number && header.number != 0 ==> step.mapping
                == mapping && step.tips == tips && step.outcome == Ok::<bool, SyncError>(false))
        }),
{
}

/// Genesis special case: when the walk readies the header of number zero,
/// the step derives the record from runtime state alone — the marker without
/// the secondary-chain API, a transactionless commitment for the reported
/// secondary genesis block with it — never the digest path, and it never
/// enqueues a parent: on success the tip set is exactly the walked remainder.
pub proof fn lemma_genesis_uses_runtime_path(
    chain: ChainModel,
    runtime: RuntimeInfo,
    mapping: Map<u64, EntryModel>,
    tips: Seq<u64>,
    sync_from: u64,
    strategy: SyncStrategy,
)
    ensures
        ({
            let step = step_spec(chain, runtime, mapping, tips, sync_from, strategy);
            walk_spec(chain, mapping, seeded_tips(chain, tips), sync_from) matches WalkModel::Ready {
                remaining,
                header,
            } ==> (header.number == 0 ==> match runtime.api_version {
                None => step.mapping == mapping.insert(header.hash, EntryModel::Empty)
                    && step.tips == remaining && step.outcome == Ok::<bool, SyncError>(true),
                Some(_) => match runtime.ethereum_genesis_hash {
                    None => step.mapping == mapping && step.tips == tips && step.outcome == Err::<
                        bool,
                        SyncError,
                    >(SyncError::GenesisNotFound),
                    Some(genesis_hash) => step.mapping == mapping.insert(
                        header.hash,
                        EntryModel::Commitment {
                            ethereum_block_hash: genesis_hash,
                            ethereum_transaction_hashes: Seq::<u64>::empty(),
                        },
                    ) && step.tips == remaining && step.outcome == Ok::<bool, SyncError>(true),
                },
            })
        }),
{
}

/// Idempotence of an idle round: when the tip set is empty and a step
/// reports no work done, the step changed nothing, and running it again from
/// the state it left reports no work done again and changes nothing either.
pub proof fn lemma_idle_round_idempotent(
    chain: ChainModel,
    runtime: RuntimeInfo,
    mapping: Map<u64, EntryModel>,
    tips: Seq<u64>,
    sync_from: u64,
    strategy: SyncStrategy,
)
    requires
        tips.len() == 0,
        step_spec(chain, runtime, mapping, tips, sync_from, strategy).outcome == Ok::<
            bool,
            SyncError,
        >(false),
    ensures
        ({
            let step = step_spec(chain, runtime, mapping, tips, sync_from, strategy);
            let again = step_spec(chain, runtime, step.mapping, step.tips, sync_from, strategy);
            &&& step.mapping == mapping
            &&& step.tips == tips
            &&& again.mapping == step.mapping
            &&& again.tips == step.tips
            &&& again.outcome == Ok::<bool, SyncError>(false)
        }),
{
    let step = step_spec(chain, runtime, mapping, tips, sync_from, strategy);
    assert(step.tips =~= tips);
    assert(step.tips == tips);
}

/// Resumability: a run of `first + second` steps ends in the same persisted
/// state, with the same result, as a run of `first` steps followed — after
/// persisting and restarting from the persisted state — by a run of `second`
/// steps; a fatal first part ends both the same way.
pub proof fn lemma_run_resumable(
    chain: ChainModel,
    runtime: RuntimeInfo,
    mapping: Map<u64, EntryModel>,
    tips: Seq<u64>,
    sync_from: u64,
    strategy: SyncStrategy,
    first: nat,
    second: nat,
    synced_any: bool,
)
    ensures
        ({
            let whole = run_spec(
                chain,
                runtime,
                mapping,
                tips,
                sync_from,
                strategy,
                first + second,
                synced_any,
            );
            let part = run_spec(chain, runtime, mapping, tips, sync_from, strategy, first, synced_any);
            match part.outcome {
                Ok(did_work) => whole == run_spec(
                    chain,
                    runtime,
                    part.mapping,
                    part.tips,
                    sync_from,
                    strategy,
                    second,
                    did_work,
                ),
                Err(_) => whole == part,
            }
        }),
    decreases first,
{
    if first == 0 {
    } else {
        let step = step_spec(chain, runtime, mapping, tips, sync_from, strategy);
        match step.outcome {
            Err(_) => {},
            Ok(did_work) => {
                lemma_run_resumable(
                    chain,
                    runtime,
                    step.mapping,
                    step.tips,
                    sync_from,
                    strategy,
                    (first - 1) as nat,
                    second,
                    synced_any || did_work,
                );
            },
        }
    }
}

/// A hash needs no further visit from the walk: it is synced already, sits
/// in the tip set still to be walked, cannot be resolved by the backend, or
/// lies below the sync floor.
pub open spec fn hash_settled(
    chain: ChainModel,
    mapping: Map<u64, EntryModel>,
    tips: Seq<u64>,
    sync_from: u64,
    h: u64,
) -> bool {
    ||| mapping.contains_key(h)
    ||| tips.contains(h)
    ||| !chain.headers.contains_key(h)
    ||| chain.headers[h].number < sync_from
}

/// The invariant of the persisted state that makes the backward walk
/// complete: every synced non-genesis header's parent is settled, so no
/// synced block ever cuts an unsynced ancestor off from the walk.
pub open spec fn coverage_inv(
    chain: ChainModel,
    mapping: Map<u64, EntryModel>,
    tips: Seq<u64>,
    sync_from: u64,
) -> bool {
    forall|h: u64|
        #[trigger] mapping.contains_key(h) && chain.headers.contains_key(h) && chain.headers[
            h
        ].number != 0 ==> hash_settled(chain, mapping, tips, sync_from, chain.headers[
            h
        ].parent_hash)
}

/// The coverage invariant holds of the fresh state: nothing synced, no tips.
pub proof fn lemma_coverage_inv_at_start(chain: ChainModel, sync_from: u64)
    ensures
        coverage_inv(chain, Map::<u64, EntryModel>::empty(), Seq::<u64>::empty(), sync_from),
{
}

/// One step keeps the coverage invariant: whatever a step writes or pops, a
/// synced header's parent stays synced, pending, unresolvable or below the
/// floor.
pub proof fn lemma_step_preserves_coverage_inv(
    chain: ChainModel,
    runtime: RuntimeInfo,
    mapping: Map<u64, EntryModel>,
    tips: Seq<u64>,
    sync_from: u64,
    strategy: SyncStrategy,
)
    requires
        chain_wf(chain),
        coverage_inv(chain, mapping, tips, sync_from),
    ensures
        ({
            let step = step_spec(chain, runtime, mapping, tips, sync_from, strategy);
            coverage_inv(chain, step.mapping, step.tips, sync_from)
        }),
{
    let step = step_spec(chain, runtime, mapping, tips, sync_from, strategy);
    let seeded = seeded_tips(chain, tips);
    if seeded.len() == 0 {
        return ;
    }
    lemma_walk_structure(chain, mapping, seeded, sync_from);
    match walk_spec(chain, mapping, seeded, sync_from) {
        WalkModel::Exhausted => {
            assert forall|h: u64|
                #[trigger] step.mapping.contains_key(h) && chain.headers.contains_key(h)
                    && chain.headers[h].number != 0 implies hash_settled(
                chain,
                step.mapping,
                step.tips,
                sync_from,
                chain.headers[h].parent_hash,
            ) by {
                let parent = chain.headers[h].parent_hash;
                if tips.contains(parent) {
                    let i = choose|i: int| 0 <= i < tips.len() && tips[i] == parent;
                    assert(fetch_spec(chain, mapping, seeded[i], sync_from) is Skip);
                }
            }
        },
        WalkModel::Missing => {},
        WalkModel::Ready { remaining, header } => {
            let j = remaining.len() as int;
            let ready_tip = seeded[j];
            assert(header == chain.headers[ready_tip]);
            assert(header.hash == ready_tip);
            assert forall|h: u64|
                #[trigger] step.mapping.contains_key(h) && chain.headers.contains_key(h)
                    && chain.headers[h].number != 0 implies hash_settled(
                chain,
                step.mapping,
                step.tips,
                sync_from,
                chain.headers[h].parent_hash,
            ) by {
                let parent = chain.headers[h].parent_hash;
                if step.mapping == mapping && step.tips == tips {
                    // A deferred or fatal step changed nothing.
                } else if h == ready_tip {
                    // The newly synced header: genesis has no clause to meet;
                    // otherwise its parent was pushed onto the tip set.
                    if header.number != 0 {
                        assert(step.tips == remaining.push(header.parent_hash));
                        assert(step.tips[remaining.len() as int] == header.parent_hash);
                        assert(step.tips.contains(parent));
                    }
                } else {
                    // A header synced before this step: its parent was
                    // settled, and every way of being settled survives.
                    assert(mapping.contains_key(h));
                    assert(hash_settled(chain, mapping, tips, sync_from, parent));
                    if tips.contains(parent) {
                        let i = choose|i: int| 0 <= i < tips.len() && tips[i] == parent;
                        assert(seeded[i] == parent);
                        if i < j {
                            assert(remaining[i] == parent);
                            assert(step.tips[i] == parent);
                            assert(step.tips.contains(parent));
                        } else if i == j {
                            assert(step.mapping.contains_key(parent));
                        } else {
                            assert(fetch_spec(chain, mapping, seeded[i], sync_from) is Skip);
                        }
                    }
                }
            }
        },
    }
}

/// A bounded run keeps the coverage invariant.
pub proof fn lemma_run_preserves_coverage_inv(
    chain: ChainModel,
    runtime: RuntimeInfo,
    mapping: Map<u64, EntryModel>,
    tips: Seq<u64>,
    sync_from: u64,
    strategy: SyncStrategy,
    limit: nat,
    synced_any: bool,
)
    requires
        chain_wf(chain),
        coverage_inv(chain, mapping, tips, sync_from),
    ensures
        ({
            let run = run_spec(chain, runtime, mapping, tips, sync_from, strategy, limit, synced_any);
            coverage_inv(chain, run.mapping, run.tips, sync_from)
        }),
    decreases limit,
{
    if limit == 0 {
    } else {
        lemma_step_preserves_coverage_inv(chain, runtime, mapping, tips, sync_from, strategy);
        let step = step_spec(chain, runtime, mapping, tips, sync_from, strategy);
        match step.outcome {
            Err(_) => {},
            Ok(did_work) => {
                lemma_run_preserves_coverage_inv(
                    chain,
                    runtime,
                    step.mapping,
                    step.tips,
                    sync_from,
                    strategy,
                    (limit - 1) as nat,
                    synced_any || did_work,
                );
            },
        }
    }
}

/// Full coverage of the chain, as seen in the mapping store: every leaf at
/// or above the floor is synced, and syncedness runs down every parent link
/// that stays at or above the floor — so every hash reachable from a leaf
/// down to the floor or genesis carries a record.
pub open spec fn chain_covered(
    chain: ChainModel,
    mapping: Map<u64, EntryModel>,
    sync_from: u64,
) -> bool {
    &&& forall|i: int|
        0 <= i < chain.leaves.len() && chain.headers.contains_key(#[trigger] chain.leaves[i])
            && chain.headers[chain.leaves[i]].number >= sync_from ==> mapping.contains_key(
            chain.leaves[i],
        )
    &&& forall|h: u64|
        #[trigger] mapping.contains_key(h) && chain.headers.contains_key(h) && chain.headers[
            h
        ].number != 0 && chain.headers.contains_key(chain.headers[h].parent_hash)
            && chain.headers[chain.headers[h].parent_hash].number >= sync_from
            ==> mapping.contains_key(chain.headers[h].parent_hash)
}

/// Monotonic coverage, caught-up form: once a standalone step reports no
/// work from an empty tip set, every leaf at or above the floor is synced,
/// and syncedness runs down every parent link that stays at or above the
/// floor — so every hash reachable from a leaf down to the floor or genesis
/// carries its one record. Under the parachain strategy a deferred header
/// may legitimately stay pending, so no such bound holds there.
pub proof fn lemma_caught_up_covers_chain(
    chain: ChainModel,
    runtime: RuntimeInfo,
    mapping: Map<u64, EntryModel>,
    tips: Seq<u64>,
    sync_from: u64,
)
    requires
        coverage_inv(chain, mapping, tips, sync_from),
        tips.len() == 0,
        step_spec(chain, runtime, mapping, tips, sync_from, SyncStrategy::Standalone).outcome
            == Ok::<bool, SyncError>(false),
    ensures
        chain_covered(chain, mapping, sync_from),
{
    lemma_walk_structure(chain, mapping, chain.leaves, sync_from);
}
} // verus!
