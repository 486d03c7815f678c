use mapping_sync::chain::{ChainBackend, RuntimeInfo};
use mapping_sync::engine::{fetch_header, sync_block, sync_blocks, sync_genesis_block, sync_one_block};
use mapping_sync::store::{MappingDb, TipStore};
use mapping_sync::types::{DigestItem, MappingEntry, PostHashes, SyncError, SyncStrategy};

fn plain_header(hash: u64, parent_hash: u64, number: u64) -> mapping_sync::types::Header {
    mapping_sync::types::Header { hash, parent_hash, number, digest: vec![] }
}

fn header_with_log(
    hash: u64,
    parent_hash: u64,
    number: u64,
    eth_hash: u64,
    txs: Vec<u64>,
) -> mapping_sync::types::Header {
    mapping_sync::types::Header {
        hash,
        parent_hash,
        number,
        digest: vec![DigestItem::Commitment(PostHashes {
            block_hash: eth_hash,
            transaction_hashes: txs,
        })],
    }
}

/// A five-block chain over genesis: H5 -> H4 -> H3 -> H2 -> H1 -> H0, where
/// only H3 embeds a commitment and H5 is the single leaf.
fn example_chain() -> ChainBackend {
    let mut chain = ChainBackend::new(5);
    chain.insert_header(plain_header(10, 0, 0));
    chain.insert_header(plain_header(11, 10, 1));
    chain.insert_header(plain_header(12, 11, 2));
    chain.insert_header(header_with_log(13, 12, 3, 103, vec![31, 32]));
    chain.insert_header(plain_header(14, 13, 4));
    chain.insert_header(plain_header(15, 14, 5));
    chain.set_leaves(vec![15]);
    chain
}

fn runtime_with_genesis() -> RuntimeInfo {
    RuntimeInfo { api_version: Some(1), ethereum_genesis_hash: Some(900) }
}

#[test]
fn full_walk_indexes_every_block() {
    let chain = example_chain();
    let runtime = runtime_with_genesis();
    let mut mapping = MappingDb::new();
    let mut tips = TipStore::new();

    let result = sync_blocks(
        &chain,
        &runtime,
        &mut mapping,
        &mut tips,
        10,
        0,
        SyncStrategy::Standalone,
    );
    assert_eq!(result, Ok(true));
    assert_eq!(mapping.len(), 6);
    assert_eq!(
        mapping.entry_of(13),
        Some(&MappingEntry::Commitment {
            ethereum_block_hash: 103,
            ethereum_transaction_hashes: vec![31, 32],
        })
    );
    for hash in [15, 14, 12, 11] {
        assert_eq!(mapping.entry_of(hash), Some(&MappingEntry::Empty));
    }
    assert_eq!(
        mapping.entry_of(10),
        Some(&MappingEntry::Commitment {
            ethereum_block_hash: 900,
            ethereum_transaction_hashes: vec![],
        })
    );
    assert_eq!(tips.current_syncing_tips(), Vec::<u64>::new());
}

#[test]
fn floor_drops_low_blocks_without_error() {
    let chain = example_chain();
    let runtime = runtime_with_genesis();
    let mut mapping = MappingDb::new();
    let mut tips = TipStore::new();

    let result = sync_blocks(
        &chain,
        &runtime,
        &mut mapping,
        &mut tips,
        10,
        3,
        SyncStrategy::Standalone,
    );
    assert_eq!(result, Ok(true));
    assert_eq!(mapping.len(), 3);
    for hash in [15, 14, 13] {
        assert!(mapping.entry_of(hash).is_some());
    }
    for hash in [12, 11, 10] {
        assert_eq!(mapping.entry_of(hash), None);
    }
    assert_eq!(tips.current_syncing_tips(), Vec::<u64>::new());
}

#[test]
fn idle_round_reports_no_work_and_changes_nothing() {
    let chain = example_chain();
    let runtime = runtime_with_genesis();
    let mut mapping = MappingDb::new();
    let mut tips = TipStore::new();

    assert_eq!(
        sync_blocks(&chain, &runtime, &mut mapping, &mut tips, 10, 0, SyncStrategy::Standalone),
        Ok(true)
    );
    let len_after_full_sync = mapping.len();

    for _ in 0..3 {
        assert_eq!(
            sync_one_block(&chain, &runtime, &mut mapping, &mut tips, 0, SyncStrategy::Standalone),
            Ok(false)
        );
        assert_eq!(mapping.len(), len_after_full_sync);
        assert_eq!(tips.current_syncing_tips(), Vec::<u64>::new());
    }
}

#[test]
fn no_leaves_means_no_work() {
    let chain = ChainBackend::new(0);
    let runtime = runtime_with_genesis();
    let mut mapping = MappingDb::new();
    let mut tips = TipStore::new();

    assert_eq!(
        sync_one_block(&chain, &runtime, &mut mapping, &mut tips, 0, SyncStrategy::Standalone),
        Ok(false)
    );
    assert_eq!(mapping.len(), 0);
}

#[test]
fn unresolvable_tip_is_fatal() {
    let mut chain = ChainBackend::new(0);
    chain.set_leaves(vec![99]);
    let runtime = runtime_with_genesis();
    let mut mapping = MappingDb::new();
    let mut tips = TipStore::new();

    assert_eq!(
        sync_one_block(&chain, &runtime, &mut mapping, &mut tips, 0, SyncStrategy::Standalone),
        Err(SyncError::HeaderNotFound)
    );
    assert_eq!(mapping.len(), 0);
}

#[test]
fn parachain_defers_headers_past_best_known() {
    // The same chain as `example_chain`, but the best-known number lags the
    // leaf: header 15 has number 5 while the backend only knows of 4.
    let mut chain = ChainBackend::new(4);
    chain.insert_header(plain_header(10, 0, 0));
    chain.insert_header(plain_header(11, 10, 1));
    chain.insert_header(plain_header(12, 11, 2));
    chain.insert_header(header_with_log(13, 12, 3, 103, vec![31, 32]));
    chain.insert_header(plain_header(14, 13, 4));
    chain.insert_header(plain_header(15, 14, 5));
    chain.set_leaves(vec![15]);
    let runtime = runtime_with_genesis();
    let mut mapping = MappingDb::new();
    let mut tips = TipStore::new();

    assert_eq!(
        sync_one_block(&chain, &runtime, &mut mapping, &mut tips, 0, SyncStrategy::Parachain),
        Ok(false)
    );
    assert_eq!(mapping.len(), 0);
    assert_eq!(tips.current_syncing_tips(), Vec::<u64>::new());

    // The same header is processed at once under the standalone strategy.
    assert_eq!(
        sync_one_block(&chain, &runtime, &mut mapping, &mut tips, 0, SyncStrategy::Standalone),
        Ok(true)
    );
    assert_eq!(mapping.entry_of(15), Some(&MappingEntry::Empty));
}

#[test]
fn parachain_resumes_once_best_known_catches_up() {
    let mut lagging = ChainBackend::new(4);
    lagging.insert_header(plain_header(14, 13, 4));
    lagging.insert_header(plain_header(15, 14, 5));
    lagging.set_leaves(vec![15]);
    let runtime = runtime_with_genesis();
    let mut mapping = MappingDb::new();
    let mut tips = TipStore::new();

    // Deferred while header 15 (number 5) runs ahead of best-known 4.
    assert_eq!(
        sync_one_block(&lagging, &runtime, &mut mapping, &mut tips, 3, SyncStrategy::Parachain),
        Ok(false)
    );
    assert_eq!(mapping.len(), 0);

    // The same chain once the backend has caught up to number 5.
    let mut caught_up = ChainBackend::new(5);
    caught_up.insert_header(plain_header(14, 13, 4));
    caught_up.insert_header(plain_header(15, 14, 5));
    caught_up.set_leaves(vec![15]);
    assert_eq!(
        sync_one_block(&caught_up, &runtime, &mut mapping, &mut tips, 3, SyncStrategy::Parachain),
        Ok(true)
    );
    assert_eq!(mapping.entry_of(15), Some(&MappingEntry::Empty));
    assert_eq!(tips.current_syncing_tips(), vec![14]);
}

#[test]
fn ambiguous_digest_is_fatal_and_writes_nothing() {
    let mut chain = ChainBackend::new(5);
    chain.insert_header(mapping_sync::types::Header {
        hash: 21,
        parent_hash: 20,
        number: 1,
        digest: vec![
            DigestItem::Commitment(PostHashes { block_hash: 1, transaction_hashes: vec![] }),
            DigestItem::Commitment(PostHashes { block_hash: 2, transaction_hashes: vec![] }),
        ],
    });
    chain.set_leaves(vec![21]);
    let runtime = runtime_with_genesis();
    let mut mapping = MappingDb::new();
    let mut tips = TipStore::new();

    assert_eq!(
        sync_one_block(&chain, &runtime, &mut mapping, &mut tips, 0, SyncStrategy::Standalone),
        Err(SyncError::MultipleLogs)
    );
    assert_eq!(mapping.len(), 0);
}

#[test]
fn genesis_without_api_writes_the_marker() {
    let mut chain = ChainBackend::new(0);
    chain.insert_header(plain_header(10, 0, 0));
    chain.set_leaves(vec![10]);
    let runtime = RuntimeInfo { api_version: None, ethereum_genesis_hash: None };
    let mut mapping = MappingDb::new();
    let mut tips = TipStore::new();

    assert_eq!(
        sync_one_block(&chain, &runtime, &mut mapping, &mut tips, 0, SyncStrategy::Standalone),
        Ok(true)
    );
    assert_eq!(mapping.entry_of(10), Some(&MappingEntry::Empty));
    assert_eq!(tips.current_syncing_tips(), Vec::<u64>::new());
}

#[test]
fn genesis_with_api_but_no_block_is_fatal() {
    let mut chain = ChainBackend::new(0);
    chain.insert_header(plain_header(10, 0, 0));
    chain.set_leaves(vec![10]);
    let runtime = RuntimeInfo { api_version: Some(1), ethereum_genesis_hash: None };
    let mut mapping = MappingDb::new();
    let mut tips = TipStore::new();

    assert_eq!(
        sync_one_block(&chain, &runtime, &mut mapping, &mut tips, 0, SyncStrategy::Standalone),
        Err(SyncError::GenesisNotFound)
    );
    assert_eq!(mapping.len(), 0);
}

#[test]
fn interrupted_run_resumes_to_the_same_store() {
    let chain = example_chain();
    let runtime = runtime_with_genesis();

    // One uninterrupted run.
    let mut mapping_whole = MappingDb::new();
    let mut tips_whole = TipStore::new();
    assert_eq!(
        sync_blocks(
            &chain,
            &runtime,
            &mut mapping_whole,
            &mut tips_whole,
            10,
            0,
            SyncStrategy::Standalone,
        ),
        Ok(true)
    );

    // The same work, one persisted step at a time, "restarting" in between.
    let mut mapping_steps = MappingDb::new();
    let mut tips_steps = TipStore::new();
    loop {
        let did_work = sync_one_block(
            &chain,
            &runtime,
            &mut mapping_steps,
            &mut tips_steps,
            0,
            SyncStrategy::Standalone,
        )
        .expect("no fatal condition in this chain");
        if !did_work {
            break;
        }
    }

    assert_eq!(mapping_steps.len(), mapping_whole.len());
    for hash in [10, 11, 12, 13, 14, 15] {
        assert_eq!(mapping_steps.entry_of(hash), mapping_whole.entry_of(hash));
    }
    assert_eq!(tips_steps.current_syncing_tips(), tips_whole.current_syncing_tips());
}

#[test]
fn two_leaves_both_branches_are_indexed() {
    // A fork: genesis 10 with children 11 and 21, both leaves.
    let mut chain = ChainBackend::new(1);
    chain.insert_header(plain_header(10, 0, 0));
    chain.insert_header(plain_header(11, 10, 1));
    chain.insert_header(header_with_log(21, 10, 1, 201, vec![5]));
    chain.set_leaves(vec![11, 21]);
    let runtime = runtime_with_genesis();
    let mut mapping = MappingDb::new();
    let mut tips = TipStore::new();

    assert_eq!(
        sync_blocks(&chain, &runtime, &mut mapping, &mut tips, 10, 0, SyncStrategy::Standalone),
        Ok(true)
    );
    assert_eq!(mapping.len(), 3);
    assert_eq!(mapping.entry_of(11), Some(&MappingEntry::Empty));
    assert_eq!(
        mapping.entry_of(21),
        Some(&MappingEntry::Commitment {
            ethereum_block_hash: 201,
            ethereum_transaction_hashes: vec![5],
        })
    );
    assert!(mapping.entry_of(10).is_some());
}

#[test]
fn fetch_header_skips_synced_and_low_hashes() {
    let chain = example_chain();
    let mut mapping = MappingDb::new();

    // Ready: unsynced, resolvable, at or above the floor.
    let fetched = fetch_header(&mapping, &chain, 15, 0).expect("resolvable");
    assert_eq!(fetched.map(|h| h.hash), Some(15));

    // Below the floor: skipped without error.
    assert_eq!(fetch_header(&mapping, &chain, 12, 3).expect("resolvable"), None);

    // Already synced: skipped without error.
    let header = plain_header(15, 14, 5);
    sync_block(&mut mapping, &header).expect("no embedded log");
    assert_eq!(fetch_header(&mapping, &chain, 15, 0).expect("resolvable"), None);

    // Unresolvable: fatal.
    assert_eq!(fetch_header(&mapping, &chain, 99, 0), Err(SyncError::HeaderNotFound));
}

#[test]
fn sync_block_writes_commitment_or_marker() {
    let mut mapping = MappingDb::new();

    let with_log = header_with_log(40, 39, 7, 400, vec![1]);
    assert_eq!(sync_block(&mut mapping, &with_log), Ok(()));
    assert_eq!(
        mapping.entry_of(40),
        Some(&MappingEntry::Commitment {
            ethereum_block_hash: 400,
            ethereum_transaction_hashes: vec![1],
        })
    );

    let without_log = plain_header(41, 40, 8);
    assert_eq!(sync_block(&mut mapping, &without_log), Ok(()));
    assert_eq!(mapping.entry_of(41), Some(&MappingEntry::Empty));

    let ambiguous = mapping_sync::types::Header {
        hash: 42,
        parent_hash: 41,
        number: 9,
        digest: vec![
            DigestItem::Commitment(PostHashes { block_hash: 1, transaction_hashes: vec![] }),
            DigestItem::Commitment(PostHashes { block_hash: 2, transaction_hashes: vec![] }),
        ],
    };
    assert_eq!(sync_block(&mut mapping, &ambiguous), Err(SyncError::MultipleLogs));
    assert_eq!(mapping.entry_of(42), None);
}

#[test]
fn sync_genesis_block_uses_runtime_state() {
    let genesis = plain_header(10, 0, 0);

    let mut mapping = MappingDb::new();
    let runtime = runtime_with_genesis();
    assert_eq!(sync_genesis_block(&runtime, &mut mapping, &genesis), Ok(()));
    assert_eq!(
        mapping.entry_of(10),
        Some(&MappingEntry::Commitment {
            ethereum_block_hash: 900,
            ethereum_transaction_hashes: vec![],
        })
    );

    let mut mapping = MappingDb::new();
    let runtime = RuntimeInfo { api_version: None, ethereum_genesis_hash: Some(900) };
    assert_eq!(sync_genesis_block(&runtime, &mut mapping, &genesis), Ok(()));
    assert_eq!(mapping.entry_of(10), Some(&MappingEntry::Empty));
}

#[test]
fn sync_blocks_with_zero_limit_does_nothing() {
    let chain = example_chain();
    let runtime = runtime_with_genesis();
    let mut mapping = MappingDb::new();
    let mut tips = TipStore::new();

    assert_eq!(
        sync_blocks(&chain, &runtime, &mut mapping, &mut tips, 0, 0, SyncStrategy::Standalone),
        Ok(false)
    );
    assert_eq!(mapping.len(), 0);
}
