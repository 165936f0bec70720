use ckb_sdk::collector::DefaultCellCollector;
use ckb_sdk::error::CellCollectorError;
use ckb_sdk::sync::{SyncAction, SyncCheck, SyncStep, SYNC_ATTEMPTS, SYNC_INTERVAL_MILLIS};
use ckb_sdk::types::Tip;

const INCONSISTENT: &str =
    "ckb-indexer server inconsistent with currently connected ckb node or not synced!";
const NOT_SYNCED: &str = "ckb-indexer server not synced";

fn tip(number: u64, hash_byte: u8) -> Tip {
    Tip { block_hash: [hash_byte; 32], block_number: number }
}

/// Runs a check against the answers given, one per poll, and returns its
/// result with the number of polls made and the milliseconds waited.
fn run(node: Tip, answers: &[Result<Option<Tip>, String>]) -> (Result<(), CellCollectorError>, usize, u64) {
    let mut check = DefaultCellCollector::check_ckb_chain(Ok(node)).unwrap();
    let mut polls = 0;
    let mut waited = 0;
    loop {
        match check.next_action() {
            SyncAction::Fail(e) => return (Err(e), polls, waited),
            SyncAction::Poll => {
                let answer = answers[polls].clone();
                polls += 1;
                match check.tip_polled(answer) {
                    SyncStep::Done(result) => return (result, polls, waited),
                    SyncStep::Wait { millis, next } => {
                        waited += millis;
                        check = next;
                    }
                }
            }
        }
    }
}

#[test]
fn sync_succeeds_at_once_on_the_same_tip() {
    let (result, polls, waited) = run(tip(100, 7), &[Ok(Some(tip(100, 7)))]);
    assert_eq!(result, Ok(()));
    assert_eq!(polls, 1);
    assert_eq!(waited, 0);
}

#[test]
fn sync_succeeds_once_the_index_has_caught_up() {
    let answers = [Ok(Some(tip(97, 1))), Ok(Some(tip(98, 2))), Ok(Some(tip(99, 3))), Ok(Some(tip(100, 7)))];
    let (result, polls, waited) = run(tip(100, 7), &answers);
    assert_eq!(result, Ok(()));
    assert_eq!(polls, 4);
    assert_eq!(waited, 150);
}

#[test]
fn sync_fails_at_once_on_another_hash_at_the_same_height() {
    let answers = [Ok(Some(tip(99, 1))), Ok(Some(tip(100, 8))), Ok(Some(tip(100, 7)))];
    let (result, polls, waited) = run(tip(100, 7), &answers);
    assert_eq!(result, Err(CellCollectorError::Other(INCONSISTENT.to_string())));
    assert_eq!(polls, 2);
    assert_eq!(waited, 50);
}

#[test]
fn sync_fails_at_once_when_the_index_is_ahead() {
    let (result, polls, waited) = run(tip(100, 7), &[Ok(Some(tip(101, 7)))]);
    assert_eq!(result, Err(CellCollectorError::Other(INCONSISTENT.to_string())));
    assert_eq!(polls, 1);
    assert_eq!(waited, 0);
}

#[test]
fn sync_fails_at_once_when_the_index_has_no_tip() {
    let (result, polls, waited) = run(tip(100, 7), &[Ok(None)]);
    assert_eq!(result, Err(CellCollectorError::Other(NOT_SYNCED.to_string())));
    assert_eq!(polls, 1);
    assert_eq!(waited, 0);
}

#[test]
fn sync_gives_up_after_ten_polls_behind() {
    let answers: Vec<Result<Option<Tip>, String>> =
        (0..20).map(|i| Ok(Some(tip(80 + i, 1)))).collect();
    let (result, polls, waited) = run(tip(100, 7), &answers);
    assert_eq!(result, Err(CellCollectorError::Other(INCONSISTENT.to_string())));
    assert_eq!(polls, 10);
    assert_eq!(waited, 500);
}

#[test]
fn sync_succeeds_on_the_tenth_poll() {
    let mut answers: Vec<Result<Option<Tip>, String>> =
        (0..9).map(|i| Ok(Some(tip(90 + i, 1)))).collect();
    answers.push(Ok(Some(tip(100, 7))));
    let (result, polls, waited) = run(tip(100, 7), &answers);
    assert_eq!(result, Ok(()));
    assert_eq!(polls, 10);
    assert_eq!(waited, 450);
}

#[test]
fn sync_constants() {
    assert_eq!(SYNC_ATTEMPTS, 10);
    assert_eq!(SYNC_INTERVAL_MILLIS, 50);
    let check = SyncCheck::new(tip(1, 1));
    assert_eq!(check.attempts_left(), 10);
}

#[test]
fn sync_hands_on_a_failure_of_the_node() {
    let r = DefaultCellCollector::check_ckb_chain(Err("connection refused".to_string()));
    match r {
        Err(e) => assert_eq!(e, CellCollectorError::Internal("connection refused".to_string())),
        Ok(_) => panic!("a failed request cannot start a check"),
    }
}

#[test]
fn sync_hands_on_a_failure_of_the_index() {
    let answers = [Ok(Some(tip(99, 1))), Err("timeout".to_string())];
    let (result, polls, waited) = run(tip(100, 7), &answers);
    assert_eq!(result, Err(CellCollectorError::Internal("timeout".to_string())));
    assert_eq!(polls, 2);
    assert_eq!(waited, 50);
}

#[test]
fn sync_error_texts() {
    let (result, _, _) = run(tip(100, 7), &[Ok(None)]);
    assert_eq!(result.unwrap_err().message(), NOT_SYNCED);
    let (result, _, _) = run(tip(100, 7), &[Ok(Some(tip(100, 9)))]);
    assert_eq!(result.unwrap_err().message(), INCONSISTENT);
}
