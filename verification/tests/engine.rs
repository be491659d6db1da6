//! The engine, one call at a time.

use indexmap::IndexMap;
use papyrus_sync::block::Block;
use papyrus_sync::block::BlockBody;
use papyrus_sync::block::BlockHash;
use papyrus_sync::block::BlockHeader;
use papyrus_sync::block::BlockNumber;
use papyrus_sync::block::StarkFelt;
use papyrus_sync::central::CentralError;
use papyrus_sync::central::ClientError;
use papyrus_sync::central::RetryErrorCode;
use papyrus_sync::state::StateDiff;
use papyrus_sync::storage::Storage;
use papyrus_sync::storage::StorageError;
use papyrus_sync::sync::is_recoverable;
use papyrus_sync::sync::stream_new_blocks;
use papyrus_sync::sync::stream_new_state_diffs;
use papyrus_sync::sync::up_to;
use papyrus_sync::sync::GenericStateSync;
use papyrus_sync::sync::Recovery;
use papyrus_sync::sync::StateSyncError;
use papyrus_sync::sync::StreamStep;
use papyrus_sync::sync::SyncConfig;
use papyrus_sync::sync::SyncEvent;
use std::time::Duration;

fn hash(tag: u128) -> BlockHash {
    BlockHash(StarkFelt { high: 0, low: tag })
}

fn block(number: u64, block_hash: BlockHash, parent_hash: BlockHash) -> Block {
    Block {
        header: BlockHeader {
            block_hash,
            parent_hash,
            block_number: BlockNumber(number),
            gas_price: 1,
            state_root: StarkFelt { high: 0, low: 0 },
            sequencer: StarkFelt { high: 0, low: 0 },
            timestamp: number,
        },
        body: BlockBody { transactions: vec![], transaction_outputs: vec![] },
    }
}

fn diff(tag: u128) -> StateDiff {
    let mut nonces = IndexMap::new();
    nonces.insert((0, 1), (0, tag));
    StateDiff {
        deployed_contracts: IndexMap::new(),
        storage_diffs: IndexMap::new(),
        declared_classes: IndexMap::new(),
        deprecated_declared_classes: IndexMap::new(),
        nonces,
        replaced_classes: IndexMap::new(),
    }
}

fn config() -> SyncConfig {
    SyncConfig {
        block_propagation_sleep_duration: Duration::from_secs(10),
        recoverable_error_sleep_duration: Duration::from_secs(3),
        blocks_max_stream_size: 1000,
        state_updates_max_stream_size: 1000,
    }
}

/// An engine whose store holds `count` blocks with hashes 100, 101, .., each
/// with its state diff.
fn engine_with(count: u64) -> GenericStateSync {
    let mut sync = GenericStateSync::new(config(), Storage::new());
    for n in 0..count {
        let number = BlockNumber(n);
        let incoming = block(n, hash(100 + n as u128), hash(99 + n as u128));
        sync.store_block(number, incoming).unwrap();
        sync.store_state_diff(number, hash(100 + n as u128), diff(n as u128), IndexMap::new()).unwrap();
    }
    sync
}

fn markers(sync: &GenericStateSync) -> (u64, u64, u64) {
    (
        sync.storage().get_header_marker().0,
        sync.storage().get_body_marker().0,
        sync.storage().get_state_marker().0,
    )
}

#[test]
fn engine_keeps_its_settings() {
    let sync = engine_with(1);
    assert_eq!(sync.config(), config());
}

#[test]
fn first_block_needs_no_parent() {
    let mut sync = GenericStateSync::new(config(), Storage::new());
    let first = block(0, hash(100), hash(12345));
    assert_eq!(sync.verify_parent_block_hash(BlockNumber(0), &first), Ok(()));
    assert_eq!(sync.store_block(BlockNumber(0), first), Ok(()));
    assert_eq!(markers(&sync), (1, 1, 0));
}

#[test]
fn block_without_stored_parent_is_an_inconsistency() {
    let mut sync = engine_with(2);
    let incoming = block(5, hash(105), hash(104));
    let refused = sync.store_block(BlockNumber(5), incoming).unwrap_err();
    assert_eq!(
        refused,
        StateSyncError::StorageError(StorageError::DBInconsistency {
            msg: String::from("Missing block 4 in the storage (for verifying block 5)."),
        })
    );
    assert!(!is_recoverable(&refused));
    assert_eq!(markers(&sync), (2, 2, 2));
}

#[test]
fn block_with_wrong_parent_is_a_mismatch() {
    let sync = engine_with(2);
    let incoming = block(2, hash(102), hash(555));
    assert_eq!(
        sync.verify_parent_block_hash(BlockNumber(2), &incoming),
        Err(StateSyncError::ParentBlockHashMismatch {
            block_number: BlockNumber(2),
            expected_parent_block_hash: hash(555),
            stored_parent_block_hash: hash(101),
        })
    );
}

#[test]
fn block_that_is_stored_already_is_refused() {
    let mut sync = engine_with(3);
    let again = block(1, hash(101), hash(100));
    assert_eq!(
        sync.store_block(BlockNumber(1), again),
        Err(StateSyncError::StorageError(StorageError::MarkerMismatch {
            expected: BlockNumber(3),
            found: BlockNumber(1),
        }))
    );
    assert_eq!(markers(&sync), (3, 3, 3));
}

#[test]
fn header_is_not_stored_without_its_body() {
    // A store whose bodies lag behind its headers.
    let storage = Storage::new()
        .begin_rw_txn()
        .append_header(BlockNumber(0), &block(0, hash(100), hash(99)).header)
        .unwrap()
        .commit();
    let mut sync = GenericStateSync::new(config(), storage);
    let incoming = block(1, hash(101), hash(100));
    assert_eq!(
        sync.store_block(BlockNumber(1), incoming),
        Err(StateSyncError::StorageError(StorageError::MarkerMismatch {
            expected: BlockNumber(0),
            found: BlockNumber(1),
        }))
    );
    assert_eq!(markers(&sync), (1, 0, 0));
}

#[test]
fn state_diff_with_matching_header_is_stored() {
    let mut sync = engine_with(2);
    sync.store_block(BlockNumber(2), block(2, hash(102), hash(101))).unwrap();
    assert_eq!(sync.is_reverted_state_diff(BlockNumber(2), hash(102)), Ok(false));
    assert_eq!(sync.store_state_diff(BlockNumber(2), hash(102), diff(2), IndexMap::new()), Ok(()));
    assert_eq!(markers(&sync), (3, 3, 3));
    let thin = sync.storage().get_state_diff(BlockNumber(2)).unwrap();
    assert_eq!(thin.nonces.get(&(0, 1)), Some(&(0, 2)));
}

#[test]
fn state_diff_out_of_turn_is_refused() {
    let mut sync = engine_with(3);
    assert_eq!(
        sync.store_state_diff(BlockNumber(1), hash(101), diff(1), IndexMap::new()),
        Err(StateSyncError::StorageError(StorageError::MarkerMismatch {
            expected: BlockNumber(3),
            found: BlockNumber(1),
        }))
    );
    assert_eq!(markers(&sync), (3, 3, 3));
}

#[test]
fn state_diff_without_any_header_is_refused() {
    let mut sync = engine_with(3);
    let refused = sync.store_state_diff(BlockNumber(2), hash(999), diff(2), IndexMap::new());
    assert_eq!(
        refused,
        Err(StateSyncError::StateDiffWithoutMatchingHeader {
            block_number: BlockNumber(2),
            block_hash: hash(999),
        })
    );
    assert_eq!(
        sync.is_reverted_state_diff(BlockNumber(7), hash(107)),
        Err(StateSyncError::StateDiffWithoutMatchingHeader {
            block_number: BlockNumber(7),
            block_hash: hash(107),
        })
    );
    assert!(is_recoverable(&refused.unwrap_err()));
}

#[test]
fn state_diff_of_a_reverted_block_is_filed_with_the_reverted() {
    let mut sync = engine_with(3);
    // Block 2 has a header and a body, and no state diff yet, when it is reverted.
    sync.revert_block(BlockNumber(2));
    sync.store_block(BlockNumber(2), block(2, hash(102), hash(101))).unwrap();
    sync.revert_block(BlockNumber(2));
    sync.store_block(BlockNumber(2), block(2, hash(202), hash(101))).unwrap();
    assert_eq!(sync.is_reverted_state_diff(BlockNumber(2), hash(102)), Ok(true));
    assert_eq!(sync.store_state_diff(BlockNumber(2), hash(102), diff(42), IndexMap::new()), Ok(()));
    assert_eq!(markers(&sync), (3, 3, 2));
    let filed = sync.storage().get_ommer_state_diff(hash(102)).unwrap();
    assert_eq!(filed.nonces.get(&(0, 1)), Some(&(0, 42)));
    assert!(sync.storage().get_state_diff(BlockNumber(2)).is_none());
}

#[test]
fn revert_moves_the_last_block_to_the_side_tables() {
    let mut sync = engine_with(3);
    let tip = sync.storage().get_block_header(BlockNumber(2)).unwrap();
    let body = sync.storage().get_body(BlockNumber(2)).unwrap();
    sync.revert_block(BlockNumber(2));
    assert_eq!(markers(&sync), (2, 2, 2));
    assert_eq!(sync.storage().get_block_header(BlockNumber(2)), None);
    assert_eq!(sync.storage().get_ommer_header(hash(102)), Some(tip));
    assert_eq!(sync.storage().get_ommer_body(hash(102)), Some(body));
    let filed = sync.storage().get_ommer_state_diff(hash(102)).unwrap();
    assert_eq!(filed.nonces.get(&(0, 1)), Some(&(0, 2)));
}

#[test]
fn revert_of_a_block_that_is_not_the_last_does_nothing() {
    let mut sync = engine_with(3);
    sync.revert_block(BlockNumber(1));
    sync.revert_block(BlockNumber(3));
    assert_eq!(markers(&sync), (3, 3, 3));
    assert_eq!(sync.storage().get_ommer_header(hash(101)), None);
}

#[test]
fn revert_of_a_block_without_state_diff() {
    let mut sync = engine_with(2);
    sync.store_block(BlockNumber(2), block(2, hash(102), hash(101))).unwrap();
    assert_eq!(markers(&sync), (3, 3, 2));
    sync.revert_block(BlockNumber(2));
    assert_eq!(markers(&sync), (2, 2, 2));
    assert!(sync.storage().get_ommer_header(hash(102)).is_some());
    assert!(sync.storage().get_ommer_state_diff(hash(102)).is_none());
    assert!(sync.storage().get_state_diff(BlockNumber(1)).is_some());
}

#[test]
fn block_is_reverted_when_the_feeder_disagrees() {
    let sync = engine_with(3);
    assert!(sync.should_revert_block(BlockNumber(2), None));
    assert!(sync.should_revert_block(BlockNumber(2), Some(hash(777))));
    assert!(!sync.should_revert_block(BlockNumber(2), Some(hash(102))));
    assert!(!sync.should_revert_block(BlockNumber(9), Some(hash(102))));
    assert!(sync.should_revert_block(BlockNumber(9), None));
}

#[test]
fn revert_check_walks_down_until_the_feeder_agrees() {
    let mut sync = engine_with(4);
    assert_eq!(sync.last_block_in_storage(), Some(BlockNumber(3)));
    assert_eq!(sync.handle_block_reverts(BlockNumber(3), None), Some(BlockNumber(2)));
    assert_eq!(sync.handle_block_reverts(BlockNumber(2), Some(hash(9))), Some(BlockNumber(1)));
    assert_eq!(sync.handle_block_reverts(BlockNumber(1), Some(hash(101))), None);
    assert_eq!(markers(&sync), (2, 2, 2));
    assert_eq!(sync.last_block_in_storage(), Some(BlockNumber(1)));
}

#[test]
fn revert_check_ends_below_the_first_block() {
    let mut sync = engine_with(1);
    assert_eq!(sync.handle_block_reverts(BlockNumber(0), None), None);
    assert_eq!(markers(&sync), (0, 0, 0));
    assert_eq!(sync.last_block_in_storage(), None);
}

#[test]
fn event_that_comes_twice_changes_nothing_more() {
    let mut sync = engine_with(2);
    let event = || SyncEvent::BlockAvailable {
        block_number: BlockNumber(2),
        block: block(2, hash(102), hash(101)),
    };
    assert_eq!(sync.process_sync_event(event()), Ok(()));
    assert!(sync.process_sync_event(event()).is_err());
    assert_eq!(markers(&sync), (3, 3, 2));
    let diff_event =
        || SyncEvent::state_diff_available(BlockNumber(2), hash(102), diff(2), IndexMap::new());
    assert_eq!(sync.process_sync_event(diff_event()), Ok(()));
    assert!(sync.process_sync_event(diff_event()).is_err());
    assert_eq!(markers(&sync), (3, 3, 3));
}

#[test]
fn window_of_a_request() {
    assert_eq!(up_to(BlockNumber(10), BlockNumber(15), 1000), BlockNumber(15));
    assert_eq!(up_to(BlockNumber(10), BlockNumber(5000), 1000), BlockNumber(1010));
    assert_eq!(up_to(BlockNumber(10), BlockNumber(1010), 1000), BlockNumber(1010));
    assert_eq!(up_to(BlockNumber(10), BlockNumber(1011), 1000), BlockNumber(1010));
    assert_eq!(up_to(BlockNumber(10), BlockNumber(4), 1000), BlockNumber(4));
    assert_eq!(up_to(BlockNumber(10), BlockNumber(20), 0), BlockNumber(10));
    assert_eq!(
        up_to(BlockNumber(u64::MAX - 5), BlockNumber(u64::MAX), u32::MAX),
        BlockNumber(u64::MAX)
    );
}

#[test]
fn stream_of_blocks_rests_when_it_has_caught_up() {
    let rest = Duration::from_secs(10);
    assert_eq!(stream_new_blocks(BlockNumber(8), BlockNumber(8), rest, 5), StreamStep::Sleep(rest));
    assert_eq!(stream_new_blocks(BlockNumber(0), BlockNumber(0), rest, 5), StreamStep::Sleep(rest));
}

#[test]
fn stream_of_blocks_asks_for_a_bounded_range() {
    let rest = Duration::from_secs(10);
    assert_eq!(
        stream_new_blocks(BlockNumber(8), BlockNumber(10), rest, 5),
        StreamStep::Fetch { from: BlockNumber(8), up_to: BlockNumber(10) }
    );
    assert_eq!(
        stream_new_blocks(BlockNumber(8), BlockNumber(100), rest, 5),
        StreamStep::Fetch { from: BlockNumber(8), up_to: BlockNumber(13) }
    );
}

#[test]
fn stream_of_state_diffs_runs_up_to_the_header_marker() {
    let rest = Duration::from_secs(10);
    assert_eq!(
        stream_new_state_diffs(BlockNumber(4), BlockNumber(4), rest, 5),
        StreamStep::Sleep(rest)
    );
    assert_eq!(
        stream_new_state_diffs(BlockNumber(4), BlockNumber(6), rest, 5),
        StreamStep::Fetch { from: BlockNumber(4), up_to: BlockNumber(6) }
    );
    assert_eq!(
        stream_new_state_diffs(BlockNumber(4), BlockNumber(100), rest, 5),
        StreamStep::Fetch { from: BlockNumber(4), up_to: BlockNumber(100) }
    );
}

fn client(err: ClientError) -> StateSyncError {
    StateSyncError::CentralSourceError(CentralError::ClientError(err))
}

fn text() -> String {
    String::from("why")
}

#[test]
fn failures_of_the_client_that_may_pass() {
    assert!(is_recoverable(&client(ClientError::RequestError { is_request: false, message: text() })));
    assert!(is_recoverable(&client(ClientError::BadResponseStatus { code: 503, message: text() })));
    assert!(is_recoverable(&client(ClientError::BadResponseStatus { code: 500, message: text() })));
    assert!(is_recoverable(&client(ClientError::BadResponseStatus { code: 403, message: text() })));
    assert!(is_recoverable(&client(ClientError::SerdeError { is_syntax: false, message: text() })));
    assert!(is_recoverable(&client(ClientError::StarknetError { message: text() })));
    assert!(is_recoverable(&client(ClientError::RetryError {
        code: RetryErrorCode::TooManyRequests,
        message: text(),
    })));
}

#[test]
fn failures_of_the_client_that_end_the_run() {
    assert!(!is_recoverable(&client(ClientError::RequestError { is_request: true, message: text() })));
    assert!(!is_recoverable(&client(ClientError::BadResponseStatus { code: 404, message: text() })));
    assert!(!is_recoverable(&client(ClientError::SerdeError { is_syntax: true, message: text() })));
}

#[test]
fn other_failures_of_the_central_source_end_the_run() {
    let central = |err| StateSyncError::CentralSourceError(err);
    assert!(!is_recoverable(&central(CentralError::BlockNotFound { block_number: BlockNumber(3) })));
    assert!(!is_recoverable(&central(CentralError::StateUpdateNotFound)));
    assert!(!is_recoverable(&central(CentralError::ClassNotFound)));
    assert!(!is_recoverable(&central(CentralError::BadContractClassType)));
    assert!(!is_recoverable(&central(CentralError::ClientCreation { message: text() })));
    assert!(!is_recoverable(&central(CentralError::StarknetApiError { message: text() })));
    assert!(!is_recoverable(&central(CentralError::StorageError(StorageError::SerdeError {
        message: text(),
    }))));
    assert!(!is_recoverable(&central(CentralError::StorageError(StorageError::DBInconsistency {
        msg: text(),
    }))));
}

#[test]
fn failure_of_the_backend_met_by_the_central_source_may_pass() {
    let met = StateSyncError::CentralSourceError(CentralError::StorageError(
        StorageError::InnerError { message: text() },
    ));
    assert!(is_recoverable(&met));
}

#[test]
fn failures_of_the_store() {
    let store = |err| StateSyncError::StorageError(err);
    assert!(is_recoverable(&store(StorageError::InnerError { message: text() })));
    assert!(!is_recoverable(&store(StorageError::DBInconsistency { msg: text() })));
    assert!(!is_recoverable(&store(StorageError::SerdeError { message: text() })));
    assert!(!is_recoverable(&store(StorageError::MarkerMismatch {
        expected: BlockNumber(1),
        found: BlockNumber(2),
    })));
}

#[test]
fn mismatch_of_parent_hashes_is_no_failure_that_passes_by_resting() {
    let mismatch = StateSyncError::ParentBlockHashMismatch {
        block_number: BlockNumber(1),
        expected_parent_block_hash: hash(1),
        stored_parent_block_hash: hash(2),
    };
    assert!(!is_recoverable(&mismatch));
}

#[test]
fn how_the_engine_goes_on() {
    let sync = engine_with(0);
    let mismatch = StateSyncError::ParentBlockHashMismatch {
        block_number: BlockNumber(1),
        expected_parent_block_hash: hash(1),
        stored_parent_block_hash: hash(2),
    };
    assert_eq!(sync.recover(mismatch), Recovery::Restart);
    let passing = StateSyncError::StorageError(StorageError::InnerError { message: text() });
    assert_eq!(sync.recover(passing), Recovery::RestartAfter(Duration::from_secs(3)));
    let fatal = || StateSyncError::StorageError(StorageError::DBInconsistency { msg: text() });
    assert_eq!(sync.recover(fatal()), Recovery::Terminate(fatal()));
    let not_found = || client(ClientError::BadResponseStatus { code: 404, message: text() });
    assert_eq!(sync.recover(not_found()), Recovery::Terminate(not_found()));
}
