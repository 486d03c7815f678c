//! Liveness of the sync engine under the standalone strategy: over healthy
//! chain data, repeated single steps reach an idle state after finitely many
//! calls, and the idle state covers the whole reachable chain. Under the
//! parachain strategy no such bound exists: pacing may defer a header for as
//! long as the best-known number lags behind it.

use vstd::prelude::*;

use crate::chain::{chain_wf, ChainModel, RuntimeInfo};
use crate::consensus::log_count;
use crate::laws::{
    chain_covered, coverage_inv, lemma_caught_up_covers_chain, lemma_run_preserves_coverage_inv,
    lemma_step_new_keys, lemma_walk_ready, lemma_walk_structure,
};
use crate::model::{
    fetch_spec, run_spec, seeded_tips, step_spec, walk_spec, FetchModel, WalkModel,
};
use crate::types::{EntryModel, SyncError, SyncStrategy};

verus! {

broadcast use vstd::set::group_set_axioms;

/// Every hash of the sequence is either synced already or resolvable by the
/// chain backend, so examining it cannot be fatal.
pub open spec fn all_resolvable(
    chain: ChainModel,
    mapping: Map<u64, EntryModel>,
    hashes: Seq<u64>,
) -> bool {
    forall|i: int|
        0 <= i < hashes.len() ==> mapping.contains_key(#[trigger] hashes[i])
            || chain.headers.contains_key(hashes[i])
}

/// Chain data and persisted state on which every step completes without a
/// fatal outcome: the backend keys headers by their own hash and holds
/// finitely many of them, parent links of non-genesis headers resolve, no
/// digest is ambiguous, every tip and leaf is synced or resolvable, and the
/// runtime can derive genesis whenever it exposes the secondary-chain API.
pub open spec fn healthy(
    chain: ChainModel,
    runtime: RuntimeInfo,
    mapping: Map<u64, EntryModel>,
    tips: Seq<u64>,
) -> bool {
    &&& chain_wf(chain)
    &&& chain.headers.dom().finite()
    &&& forall|h: u64|
        chain.headers.contains_key(h) && (#[trigger] chain.headers[h]).number != 0
            ==> chain.headers.contains_key(chain.headers[h].parent_hash)
    &&& forall|h: u64| #[trigger]
        chain.headers.contains_key(h) ==> log_count(chain.headers[h].digest) <= 1
    &&& all_resolvable(chain, mapping, tips)
    &&& all_resolvable(chain, mapping, chain.leaves)
    &&& (runtime.api_version is Some ==> runtime.ethereum_genesis_hash is Some)
}

/// A fixed point of the standalone step: it reports no work done and leaves
/// both persisted stores exactly as they are.
pub open spec fn idle_state(
    chain: ChainModel,
    runtime: RuntimeInfo,
    mapping: Map<u64, EntryModel>,
    tips: Seq<u64>,
    sync_from: u64,
) -> bool {
    let step = step_spec(chain, runtime, mapping, tips, sync_from, SyncStrategy::Standalone);
    &&& step.outcome == Ok::<bool, SyncError>(false)
    &&& step.mapping == mapping
    &&& step.tips == tips
}

/// Indexing work still owed: two units per resolvable header without a
/// record, one more while the tip set is nonempty.
pub open spec fn sync_debt(
    chain: ChainModel,
    mapping: Map<u64, EntryModel>,
    tips: Seq<u64>,
) -> nat {
    2 * chain.headers.dom().difference(mapping.dom()).len() + (if tips.len() == 0 {
        0nat
    } else {
        1nat
    })
}

/// After `n` standalone single steps from this state, the run has ended in
/// an idle state without a fatal outcome.
pub open spec fn idle_after(
    chain: ChainModel,
    runtime: RuntimeInfo,
    mapping: Map<u64, EntryModel>,
    tips: Seq<u64>,
    sync_from: u64,
    n: nat,
) -> bool {
    let run = run_spec(chain, runtime, mapping, tips, sync_from, SyncStrategy::Standalone, n, false);
    &&& run.outcome is Ok
    &&& idle_state(chain, runtime, run.mapping, run.tips, sync_from)
}

/// A walk that ends fatally found a tip that is neither synced nor
/// resolvable.
proof fn lemma_walk_missing_has_witness(
    chain: ChainModel,
    mapping: Map<u64, EntryModel>,
    tips: Seq<u64>,
    sync_from: u64,
)
    ensures
        walk_spec(chain, mapping, tips, sync_from) is Missing ==> exists|i: int|
            0 <= i < tips.len() && fetch_spec(chain, mapping, #[trigger] tips[i], sync_from)
                is Missing,
    decreases tips.len(),
{
    if tips.len() == 0 {
    } else {
        match fetch_spec(chain, mapping, tips.last(), sync_from) {
            FetchModel::Skip => {
                lemma_walk_missing_has_witness(chain, mapping, tips.drop_last(), sync_from);
                if walk_spec(chain, mapping, tips, sync_from) is Missing {
                    let i = choose|i: int|
                        0 <= i < tips.drop_last().len() && fetch_spec(
                            chain,
                            mapping,
                            #[trigger] tips.drop_last()[i],
                            sync_from,
                        ) is Missing;
                    assert(fetch_spec(chain, mapping, tips[i], sync_from) is Missing);
                }
            },
            FetchModel::Missing => {
                assert(fetch_spec(chain, mapping, tips[tips.len() - 1], sync_from) is Missing);
            },
            FetchModel::Ready(_) => {},
        }
    }
}

/// On healthy data the standalone step never ends fatally: every tip
/// resolves, no digest is ambiguous, and genesis is derivable.
proof fn lemma_step_not_fatal(
    chain: ChainModel,
    runtime: RuntimeInfo,
    mapping: Map<u64, EntryModel>,
    tips: Seq<u64>,
    sync_from: u64,
)
    requires
        healthy(chain, runtime, mapping, tips),
    ensures
        !(step_spec(chain, runtime, mapping, tips, sync_from, SyncStrategy::Standalone).outcome
            is Err),
{
    let seeded = seeded_tips(chain, tips);
    lemma_walk_missing_has_witness(chain, mapping, seeded, sync_from);
    lemma_walk_ready(chain, mapping, seeded, sync_from);
    match walk_spec(chain, mapping, seeded, sync_from) {
        WalkModel::Missing => {
            let i = choose|i: int|
                0 <= i < seeded.len() && fetch_spec(chain, mapping, #[trigger] seeded[i], sync_from)
                    is Missing;
            assert(mapping.contains_key(seeded[i]) || chain.headers.contains_key(seeded[i]));
        },
        WalkModel::Ready { remaining: _, header } => {
            let t = choose|t: u64|
                #[trigger] chain.headers.contains_key(t) && header == chain.headers[t]
                    && !mapping.contains_key(t) && header.number >= sync_from;
            assert(log_count(header.digest) <= 1);
        },
        WalkModel::Exhausted => {},
    }
}

/// One healthy standalone step hands the next step healthy data again: the
/// mapping store only grows, kept tips come from the old tip set or the
/// leaves, and a pushed parent hash resolves because parent links do.
proof fn lemma_step_preserves_healthy(
    chain: ChainModel,
    runtime: RuntimeInfo,
    mapping: Map<u64, EntryModel>,
    tips: Seq<u64>,
    sync_from: u64,
)
    requires
        healthy(chain, runtime, mapping, tips),
    ensures
        ({
            let step = step_spec(chain, runtime, mapping, tips, sync_from, SyncStrategy::Standalone);
            healthy(chain, runtime, step.mapping, step.tips)
        }),
{
    let step = step_spec(chain, runtime, mapping, tips, sync_from, SyncStrategy::Standalone);
    let seeded = seeded_tips(chain, tips);
    lemma_step_new_keys(chain, runtime, mapping, tips, sync_from, SyncStrategy::Standalone);
    lemma_walk_structure(chain, mapping, seeded, sync_from);
    lemma_walk_ready(chain, mapping, seeded, sync_from);
    if seeded.len() == 0 {
        return ;
    }
    match walk_spec(chain, mapping, seeded, sync_from) {
        WalkModel::Exhausted => {},
        WalkModel::Missing => {},
        WalkModel::Ready { remaining, header } => {
            let t = choose|t: u64|
                #[trigger] chain.headers.contains_key(t) && header == chain.headers[t]
                    && !mapping.contains_key(t) && header.number >= sync_from;
            assert forall|i: int| 0 <= i < step.tips.len() implies step.mapping.contains_key(
                #[trigger] step.tips[i],
            ) || chain.headers.contains_key(step.tips[i]) by {
                if step.tips == tips {
                    assert(mapping.contains_key(tips[i]) || chain.headers.contains_key(tips[i]));
                } else {
                    if i < remaining.len() {
                        assert(step.tips[i] == seeded[i]);
                        assert(mapping.contains_key(seeded[i]) || chain.headers.contains_key(
                            seeded[i],
                        ));
                    } else {
                        // The one pushed element: the processed header's
                        // parent, which resolves since the header is not
                        // genesis on this branch.
                        assert(step.tips[i] == header.parent_hash);
                        assert(chain.headers.contains_key(header.parent_hash));
                    }
                }
            }
        },
    }
}

/// A standalone step that is not yet idle strictly pays down the sync debt:
/// a unit of work syncs one more resolvable header, and an exhausting round
/// empties the tip set.
proof fn lemma_step_pays_debt(
    chain: ChainModel,
    runtime: RuntimeInfo,
    mapping: Map<u64, EntryModel>,
    tips: Seq<u64>,
    sync_from: u64,
)
    requires
        healthy(chain, runtime, mapping, tips),
        !idle_state(chain, runtime, mapping, tips, sync_from),
    ensures
        ({
            let step = step_spec(chain, runtime, mapping, tips, sync_from, SyncStrategy::Standalone);
            &&& step.outcome is Ok
            &&& sync_debt(chain, step.mapping, step.tips) < sync_debt(chain, mapping, tips)
        }),
{
    let step = step_spec(chain, runtime, mapping, tips, sync_from, SyncStrategy::Standalone);
    let seeded = seeded_tips(chain, tips);
    lemma_step_not_fatal(chain, runtime, mapping, tips, sync_from);
    lemma_walk_ready(chain, mapping, seeded, sync_from);
    if seeded.len() == 0 {
        assert(idle_state(chain, runtime, mapping, tips, sync_from));
    } else {
        match walk_spec(chain, mapping, seeded, sync_from) {
            WalkModel::Exhausted => {
                if tips.len() == 0 {
                    assert(step.tips =~= tips);
                    assert(idle_state(chain, runtime, mapping, tips, sync_from));
                }
            },
            WalkModel::Missing => {},
            WalkModel::Ready { remaining: _, header } => {
                let t = choose|t: u64|
                    #[trigger] chain.headers.contains_key(t) && header == chain.headers[t]
                        && !mapping.contains_key(t) && header.number >= sync_from;
                assert(header.hash == t);
                let owed_before = chain.headers.dom().difference(mapping.dom());
                let owed_after = chain.headers.dom().difference(step.mapping.dom());
                assert(owed_before.contains(t));
                assert(owed_after =~= owed_before.remove(t));
                assert(owed_after.len() == owed_before.len() - 1);
            },
        }
    }
}

/// The reported "did any step work" flag feeds nothing back into a run: two
/// runs differing only in it end in the same stores, and end fatally
/// together or not at all.
proof fn lemma_run_flag_immaterial(
    chain: ChainModel,
    runtime: RuntimeInfo,
    mapping: Map<u64, EntryModel>,
    tips: Seq<u64>,
    sync_from: u64,
    strategy: SyncStrategy,
    limit: nat,
    first_flag: bool,
    second_flag: bool,
)
    ensures
        ({
            let one = run_spec(chain, runtime, mapping, tips, sync_from, strategy, limit, first_flag);
            let two = run_spec(
                chain,
                runtime,
                mapping,
                tips,
                sync_from,
                strategy,
                limit,
                second_flag,
            );
            &&& one.mapping == two.mapping
            &&& one.tips == two.tips
            &&& (one.outcome is Ok <==> two.outcome is Ok)
        }),
    decreases limit,
{
    if limit == 0 {
    } else {
        let step = step_spec(chain, runtime, mapping, tips, sync_from, strategy);
        match step.outcome {
            Err(_) => {},
            Ok(did_work) => {
                lemma_run_flag_immaterial(
                    chain,
                    runtime,
                    step.mapping,
                    step.tips,
                    sync_from,
                    strategy,
                    (limit - 1) as nat,
                    first_flag || did_work,
                    second_flag || did_work,
                );
            },
        }
    }
}

/// Termination of the standalone walk: from any healthy state, after
/// finitely many single steps the engine is idle — every further step
/// reports no work done and changes nothing.
pub proof fn lemma_standalone_reaches_idle(
    chain: ChainModel,
    runtime: RuntimeInfo,
    mapping: Map<u64, EntryModel>,
    tips: Seq<u64>,
    sync_from: u64,
)
    requires
        healthy(chain, runtime, mapping, tips),
    ensures
        exists|n: nat| idle_after(chain, runtime, mapping, tips, sync_from, n),
    decreases sync_debt(chain, mapping, tips),
{
    if idle_state(chain, runtime, mapping, tips, sync_from) {
        assert(idle_after(chain, runtime, mapping, tips, sync_from, 0));
    } else {
        lemma_step_pays_debt(chain, runtime, mapping, tips, sync_from);
        lemma_step_preserves_healthy(chain, runtime, mapping, tips, sync_from);
        let step = step_spec(chain, runtime, mapping, tips, sync_from, SyncStrategy::Standalone);
        lemma_standalone_reaches_idle(chain, runtime, step.mapping, step.tips, sync_from);
        let n = choose|n: nat| idle_after(chain, runtime, step.mapping, step.tips, sync_from, n);
        let did_work = step.outcome->Ok_0;
        lemma_run_flag_immaterial(
            chain,
            runtime,
            step.mapping,
            step.tips,
            sync_from,
            SyncStrategy::Standalone,
            n,
            did_work,
            false,
        );
        assert(idle_after(chain, runtime, mapping, tips, sync_from, n + 1));
    }
}

/// Monotonic coverage, in full: from a healthy state that also satisfies
/// the coverage invariant, finitely many standalone steps reach an idle
/// state whose mapping store covers every hash reachable from a leaf down
/// to the floor or genesis.
pub proof fn lemma_standalone_eventually_covers(
    chain: ChainModel,
    runtime: RuntimeInfo,
    mapping: Map<u64, EntryModel>,
    tips: Seq<u64>,
    sync_from: u64,
)
    requires
        healthy(chain, runtime, mapping, tips),
        coverage_inv(chain, mapping, tips, sync_from),
    ensures
        exists|n: nat|
            #[trigger] idle_after(chain, runtime, mapping, tips, sync_from, n) && chain_covered(
                chain,
                run_spec(
                    chain,
                    runtime,
                    mapping,
                    tips,
                    sync_from,
                    SyncStrategy::Standalone,
                    n,
                    false,
                ).mapping,
                sync_from,
            ),
{
    lemma_standalone_reaches_idle(chain, runtime, mapping, tips, sync_from);
    let n = choose|n: nat| idle_after(chain, runtime, mapping, tips, sync_from, n);
    let run = run_spec(chain, runtime, mapping, tips, sync_from, SyncStrategy::Standalone, n, false);
    lemma_run_preserves_coverage_inv(
        chain,
        runtime,
        mapping,
        tips,
        sync_from,
        SyncStrategy::Standalone,
        n,
        false,
    );
    // An idle state has an empty tip set: a nonempty one would be either
    // emptied by an exhausting round, stopped fatally, or walked for work.
    let after = step_spec(chain, runtime, run.mapping, run.tips, sync_from, SyncStrategy::Standalone);
    if run.tips.len() != 0 {
        match walk_spec(chain, run.mapping, run.tips, sync_from) {
            WalkModel::Exhausted => {
                assert(after.tips.len() == 0);
            },
            WalkModel::Missing => {},
            WalkModel::Ready { remaining: _, header: _ } => {},
        }
    }
    lemma_caught_up_covers_chain(chain, runtime, run.mapping, run.tips, sync_from);
    assert(idle_after(chain, runtime, mapping, tips, sync_from, n) && chain_covered(
        chain,
        run.mapping,
        sync_from,
    ));
}

} // verus!
