use mapping_sync::consensus::find_log;
use mapping_sync::types::{DigestItem, FindLogError, PostHashes};

#[test]
fn find_log_empty_digest_reports_not_found() {
    let digest: Vec<DigestItem> = vec![];
    assert_eq!(find_log(&digest), Err(FindLogError::NotFound));
}

#[test]
fn find_log_ignores_unrelated_items() {
    let digest = vec![DigestItem::Other, DigestItem::Other];
    assert_eq!(find_log(&digest), Err(FindLogError::NotFound));
}

#[test]
fn find_log_returns_the_unique_payload() {
    let digest = vec![
        DigestItem::Other,
        DigestItem::Commitment(PostHashes { block_hash: 700, transaction_hashes: vec![7, 8, 9] }),
        DigestItem::Other,
    ];
    let found = find_log(&digest).expect("one log embedded");
    assert_eq!(found.block_hash, 700);
    assert_eq!(found.transaction_hashes, vec![7, 8, 9]);
}

#[test]
fn find_log_rejects_two_logs() {
    let digest = vec![
        DigestItem::Commitment(PostHashes { block_hash: 1, transaction_hashes: vec![] }),
        DigestItem::Commitment(PostHashes { block_hash: 2, transaction_hashes: vec![] }),
    ];
    assert_eq!(find_log(&digest), Err(FindLogError::MultipleLogs));
}
