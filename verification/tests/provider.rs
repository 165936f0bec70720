use ckb_chain_spec::consensus::{Consensus, ConsensusBuilder};
use ckb_sdk::cache::MAX_CACHE_CAPACITY;
use ckb_sdk::error::TransactionDependencyError;
use ckb_sdk::provider::{
    is_live, make_hash_key, make_out_point_key, status_name, CellInfo, CellWithStatus,
    DefaultTransactionDependencyProvider, TransactionWithStatus, TxStatus,
};
use ckb_sdk::types::{CellOutput, OutPoint, Script, HASH_TYPE_TYPE};
use ckb_types::prelude::Entity;

fn transaction(version: u32) -> ckb_types::core::TransactionView {
    ckb_types::core::TransactionBuilder::default().version(version).build()
}

fn hash_of(tx: &ckb_types::core::TransactionView) -> [u8; 32] {
    let mut hash = [0u8; 32];
    hash.copy_from_slice(tx.hash().as_slice());
    hash
}

fn header(timestamp: u64) -> ckb_types::core::HeaderView {
    ckb_types::core::HeaderBuilder::default().timestamp(timestamp).build()
}

fn block_hash(header: &ckb_types::core::HeaderView) -> [u8; 32] {
    let mut hash = [0u8; 32];
    hash.copy_from_slice(header.hash().as_slice());
    hash
}

fn committed(tx: &ckb_types::core::TransactionView) -> Result<Option<TransactionWithStatus>, String> {
    Ok(Some(TransactionWithStatus { status: TxStatus::Committed, transaction: Some(tx.clone()) }))
}

fn output(capacity: u64) -> CellOutput {
    CellOutput {
        capacity,
        lock: Script { code_hash: [1; 32], hash_type: HASH_TYPE_TYPE, args: vec![1, 2, 3] },
        type_: None,
    }
}

fn live(capacity: u64, data: Vec<u8>) -> Result<CellWithStatus, String> {
    Ok(CellWithStatus {
        status: "live".to_string(),
        cell: Some(CellInfo { output: output(capacity), data: Some(data) }),
    })
}

#[test]
fn new_provider_holds_nothing() {
    let mut p = DefaultTransactionDependencyProvider::new(4);
    assert!(p.get_consensus().is_none());
    assert!(p.get_transaction(&[1; 32]).is_none());
    assert!(p.get_cell_with_data(&OutPoint::new([1; 32], 0)).is_none());
    assert!(p.get_header(&[1; 32]).is_none());
    assert!(MAX_CACHE_CAPACITY >= 1 << 20);
}

#[test]
fn committed_transaction_is_fetched_once() {
    let mut p = DefaultTransactionDependencyProvider::new(2);
    let tx = transaction(7);
    let hash = hash_of(&tx);
    assert!(p.get_transaction(&hash).is_none());
    let stored = p.resolve_transaction(&hash, committed(&tx)).unwrap();
    assert_eq!(stored.hash(), tx.hash());
    for _ in 0..5 {
        let hit = p.get_transaction(&hash).expect("cached");
        assert_eq!(hit.hash(), tx.hash());
        assert_eq!(hit.version(), 7);
    }
    // another hash is still a miss
    assert!(p.get_transaction(&[0; 32]).is_none());
}

#[test]
fn disabled_cache_fetches_every_time() {
    let mut p = DefaultTransactionDependencyProvider::new(0);
    let tx = transaction(7);
    let hash = hash_of(&tx);
    for _ in 0..3 {
        assert!(p.get_transaction(&hash).is_none());
        assert_eq!(p.resolve_transaction(&hash, committed(&tx)).unwrap().hash(), tx.hash());
    }
    assert!(p.get_transaction(&hash).is_none());
    let h = header(3);
    let key = block_hash(&h);
    assert_eq!(p.resolve_header(&key, Ok(Some(h.clone()))).unwrap().hash(), h.hash());
    assert!(p.get_header(&key).is_none());
    let point = OutPoint::new([5; 32], 1);
    assert!(p.resolve_cell_with_data(&point, live(100, vec![1])).is_ok());
    assert!(p.get_cell_with_data(&point).is_none());
}

#[test]
fn pending_transaction_is_an_error_and_is_not_cached() {
    let mut p = DefaultTransactionDependencyProvider::new(2);
    let tx = transaction(7);
    let hash = hash_of(&tx);
    let answer = Ok(Some(TransactionWithStatus { status: TxStatus::Pending, transaction: Some(tx.clone()) }));
    match p.resolve_transaction(&hash, answer) {
        Err(e) => assert_eq!(e, TransactionDependencyError::Other("invalid transaction status: pending".to_string())),
        Ok(_) => panic!("a pending transaction is no dependency"),
    }
    assert!(p.get_transaction(&hash).is_none());
}

#[test]
fn every_status_but_committed_is_an_error() {
    let mut p = DefaultTransactionDependencyProvider::new(2);
    for (status, name) in [
        (TxStatus::Pending, "pending"),
        (TxStatus::Proposed, "proposed"),
        (TxStatus::Unknown, "unknown"),
        (TxStatus::Rejected, "rejected"),
    ] {
        assert_eq!(status_name(status), name);
        let answer = Ok(Some(TransactionWithStatus { status, transaction: None }));
        let e = p.resolve_transaction(&[1; 32], answer).unwrap_err();
        assert_eq!(e.message(), format!("invalid transaction status: {}", name));
        assert!(p.get_transaction(&[1; 32]).is_none());
    }
    assert_eq!(status_name(TxStatus::Committed), "committed");
}

#[test]
fn unknown_transaction_is_not_found() {
    let mut p = DefaultTransactionDependencyProvider::new(2);
    let e = p.resolve_transaction(&[1; 32], Ok(None)).unwrap_err();
    assert_eq!(e, TransactionDependencyError::NotFound("transaction".to_string()));
    let e = p.resolve_transaction(&[1; 32], Err("no route".to_string())).unwrap_err();
    assert_eq!(e, TransactionDependencyError::Other("no route".to_string()));
    assert!(p.get_transaction(&[1; 32]).is_none());
}

#[test]
fn least_recently_used_transaction_is_evicted() {
    let mut p = DefaultTransactionDependencyProvider::new(2);
    let (a, b, c) = (transaction(1), transaction(2), transaction(3));
    let (ha, hb, hc) = (hash_of(&a), hash_of(&b), hash_of(&c));
    p.resolve_transaction(&ha, committed(&a)).unwrap();
    p.resolve_transaction(&hb, committed(&b)).unwrap();
    // using `a` makes `b` the least recently used
    assert_eq!(p.get_transaction(&ha).unwrap().version(), 1);
    p.resolve_transaction(&hc, committed(&c)).unwrap();
    assert!(p.get_transaction(&hb).is_none());
    assert_eq!(p.get_transaction(&ha).unwrap().version(), 1);
    assert_eq!(p.get_transaction(&hc).unwrap().version(), 3);
}

#[test]
fn storing_under_a_cached_hash_replaces_the_entry() {
    let mut p = DefaultTransactionDependencyProvider::new(2);
    let (a, b, c) = (transaction(1), transaction(2), transaction(3));
    p.resolve_transaction(&[1; 32], committed(&a)).unwrap();
    p.resolve_transaction(&[2; 32], committed(&b)).unwrap();
    p.resolve_transaction(&[1; 32], committed(&c)).unwrap();
    assert_eq!(p.get_transaction(&[1; 32]).unwrap().version(), 3);
    assert_eq!(p.get_transaction(&[2; 32]).unwrap().version(), 2);
}

#[test]
fn the_three_caches_are_bounded_apart() {
    let mut p = DefaultTransactionDependencyProvider::new(1);
    let tx = transaction(1);
    let h = header(9);
    p.resolve_transaction(&[1; 32], committed(&tx)).unwrap();
    p.resolve_header(&[1; 32], Ok(Some(h.clone()))).unwrap();
    p.resolve_cell_with_data(&OutPoint::new([1; 32], 0), live(5, vec![])).unwrap();
    assert_eq!(p.get_transaction(&[1; 32]).unwrap().hash(), tx.hash());
    assert_eq!(p.get_header(&[1; 32]).unwrap().timestamp(), 9);
    assert_eq!(p.get_cell(&OutPoint::new([1; 32], 0)).unwrap().capacity, 5);
}

#[test]
fn live_cell_is_cached_with_its_data() {
    let mut p = DefaultTransactionDependencyProvider::new(2);
    let point = OutPoint::new([5; 32], 1);
    let (out, data) = p.resolve_cell_with_data(&point, live(100, vec![1, 2])).unwrap();
    assert_eq!(out, output(100));
    assert_eq!(data, vec![1, 2]);
    assert_eq!(p.get_cell_with_data(&point), Some((output(100), vec![1, 2])));
    assert_eq!(p.get_cell(&point), Some(output(100)));
    assert_eq!(p.get_cell_data(&point), Some(vec![1, 2]));
    // the index is part of the key
    assert_eq!(p.get_cell_with_data(&OutPoint::new([5; 32], 2)), None);
    assert_eq!(p.get_cell_with_data(&OutPoint::new([5; 32], 257)), None);
    assert_eq!(p.get_cell(&OutPoint::new([6; 32], 1)), None);
    assert_eq!(p.get_cell_data(&OutPoint::new([6; 32], 1)), None);
}

#[test]
fn cell_that_is_not_live_is_an_error() {
    let mut p = DefaultTransactionDependencyProvider::new(2);
    let point = OutPoint::new([5; 32], 1);
    let dead = Ok(CellWithStatus { status: "dead".to_string(), cell: None });
    let e = p.resolve_cell_with_data(&point, dead).unwrap_err();
    assert_eq!(e, TransactionDependencyError::Other("invalid cell status: dead".to_string()));
    assert!(p.get_cell_with_data(&point).is_none());
    let e = p.resolve_cell_with_data(&point, Err("reset".to_string())).unwrap_err();
    assert_eq!(e, TransactionDependencyError::Other("reset".to_string()));
    assert!(is_live(&"live".to_string()));
    assert!(!is_live(&"Live".to_string()));
    assert!(!is_live(&"unknown".to_string()));
}

#[test]
fn header_is_fetched_once() {
    let mut p = DefaultTransactionDependencyProvider::new(2);
    let h = header(42);
    let key = block_hash(&h);
    assert!(p.get_header(&key).is_none());
    assert_eq!(p.resolve_header(&key, Ok(Some(h.clone()))).unwrap().hash(), h.hash());
    assert_eq!(p.get_header(&key).unwrap().timestamp(), 42);
    assert_eq!(p.get_header(&key).unwrap().hash(), h.hash());
}

#[test]
fn unknown_header_is_not_found() {
    let mut p = DefaultTransactionDependencyProvider::new(2);
    let e = p.resolve_header(&[1; 32], Ok(None)).unwrap_err();
    assert_eq!(e, TransactionDependencyError::NotFound("header".to_string()));
    assert_eq!(e.message(), "header");
    let e = p.resolve_header(&[1; 32], Err("down".to_string())).unwrap_err();
    assert_eq!(e, TransactionDependencyError::Other("down".to_string()));
    assert!(p.get_header(&[1; 32]).is_none());
}

#[test]
fn consensus_is_kept_once_fetched() {
    let mut p = DefaultTransactionDependencyProvider::new(0);
    assert!(p.get_consensus().is_none());
    let e = p.resolve_consensus(Err("down".to_string())).unwrap_err();
    assert_eq!(e, TransactionDependencyError::Other("down".to_string()));
    assert!(p.get_consensus().is_none());
    let consensus: Consensus = ConsensusBuilder::default().id("ckb_test".to_string()).build();
    assert_eq!(p.resolve_consensus(Ok(consensus)).unwrap().id, "ckb_test");
    assert_eq!(p.get_consensus().unwrap().id, "ckb_test");
    assert_eq!(p.get_consensus().unwrap().id, "ckb_test");
}

#[test]
fn cache_keys_are_the_bytes_of_hash_and_index() {
    let mut hash = [0u8; 32];
    for (i, b) in hash.iter_mut().enumerate() {
        *b = i as u8;
    }
    assert_eq!(make_hash_key(&hash), hash.to_vec());
    let key = make_out_point_key(&OutPoint::new(hash, 0x0403_0201));
    assert_eq!(key.len(), 36);
    assert_eq!(&key[..32], &hash[..]);
    assert_eq!(&key[32..], &[1, 2, 3, 4]);
}
