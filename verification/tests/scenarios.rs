//! Whole runs of the engine against a feeder that is scripted in memory.

use indexmap::IndexMap;
use papyrus_sync::block::Block;
use papyrus_sync::block::BlockBody;
use papyrus_sync::block::BlockHash;
use papyrus_sync::block::BlockHeader;
use papyrus_sync::block::BlockNumber;
use papyrus_sync::block::StarkFelt;
use papyrus_sync::block::Transaction;
use papyrus_sync::block::TransactionKind;
use papyrus_sync::block::TransactionOutput;
use papyrus_sync::central;
use papyrus_sync::central::CentralError;
use papyrus_sync::central::ClientError;
use papyrus_sync::state::StateDiff;
use papyrus_sync::storage::Storage;
use papyrus_sync::sync;
use papyrus_sync::sync::GenericStateSync;
use papyrus_sync::sync::Recovery;
use papyrus_sync::sync::StateSyncError;
use papyrus_sync::sync::StreamStep;
use papyrus_sync::sync::SyncConfig;
use papyrus_sync::sync::SyncEvent;
use std::time::Duration;

fn hash(tag: u128) -> BlockHash {
    BlockHash(StarkFelt { high: 7, low: tag })
}

fn block(number: u64, block_hash: BlockHash, parent_hash: BlockHash) -> Block {
    Block {
        header: BlockHeader {
            block_hash,
            parent_hash,
            block_number: BlockNumber(number),
            gas_price: 100 + number as u128,
            state_root: StarkFelt { high: 0, low: number as u128 },
            sequencer: StarkFelt { high: 0, low: 1 },
            timestamp: 1_000 + number,
        },
        body: BlockBody {
            transactions: vec![Transaction {
                transaction_hash: StarkFelt { high: 1, low: number as u128 },
                kind: TransactionKind::Invoke,
                payload: vec![number as u8],
            }],
            transaction_outputs: vec![TransactionOutput {
                kind: TransactionKind::Invoke,
                actual_fee: 5,
                events: vec![],
                payload: vec![],
            }],
        },
    }
}

fn state_diff(number: u64) -> StateDiff {
    let mut nonces = IndexMap::new();
    nonces.insert((0, 9), (0, number as u128));
    nonces.insert((0, 3), (0, number as u128 + 1));
    StateDiff {
        deployed_contracts: IndexMap::new(),
        storage_diffs: IndexMap::new(),
        declared_classes: IndexMap::new(),
        deprecated_declared_classes: IndexMap::new(),
        nonces,
        replaced_classes: IndexMap::new(),
    }
}

fn config() -> SyncConfig {
    SyncConfig {
        block_propagation_sleep_duration: Duration::from_millis(10),
        recoverable_error_sleep_duration: Duration::from_millis(25),
        blocks_max_stream_size: 4,
        state_updates_max_stream_size: 4,
    }
}

/// A feeder that serves a fixed chain, and may fail a scripted number of times
/// on one block.
struct Feeder {
    /// The hash of block `n` at index `n`.
    hashes: Vec<BlockHash>,
    /// A block number, the error to give for it, and how often to give it.
    failure: Option<(u64, ClientError, u32)>,
}

impl Feeder {
    fn serving(hashes: Vec<BlockHash>) -> Feeder {
        Feeder { hashes, failure: None }
    }

    fn latest(&self) -> Option<BlockNumber> {
        if self.hashes.is_empty() {
            None
        } else {
            Some(BlockNumber(self.hashes.len() as u64 - 1))
        }
    }

    fn block_hash(&self, number: BlockNumber) -> Option<BlockHash> {
        self.hashes.get(number.0 as usize).copied()
    }

    fn get_block(&mut self, number: u64) -> Result<Option<Block>, ClientError> {
        if let Some((failing, error, times)) = &mut self.failure {
            if *failing == number && *times > 0 {
                *times -= 1;
                return Err(error.clone());
            }
        }
        match self.hashes.get(number as usize) {
            None => Ok(None),
            Some(block_hash) => {
                let parent_hash =
                    if number == 0 { hash(0) } else { self.hashes[number as usize - 1] };
                Ok(Some(block(number, *block_hash, parent_hash)))
            }
        }
    }
}

/// What a run of the driver did besides changing the store.
#[derive(Default)]
struct Trace {
    sleeps: Vec<Duration>,
    restarts: u32,
}

fn revert_check(sync: &mut GenericStateSync, feeder: &Feeder) {
    let mut last = sync.last_block_in_storage();
    while let Some(number) = last {
        last = sync.handle_block_reverts(number, feeder.block_hash(number));
    }
}

/// One cycle of the stream of blocks. `Ok(false)` says that the stream rests.
fn block_cycle(sync: &mut GenericStateSync, feeder: &mut Feeder) -> Result<bool, StateSyncError> {
    let settings = sync.config();
    let step = sync::stream_new_blocks(
        sync.storage().get_header_marker(),
        central::get_block_marker(feeder.latest()),
        settings.block_propagation_sleep_duration,
        settings.blocks_max_stream_size,
    );
    let (from, up_to) = match step {
        StreamStep::Sleep(_) => return Ok(false),
        StreamStep::Fetch { from, up_to } => (from, up_to),
    };
    let mut answers = Vec::new();
    for number in from.iter_up_to(up_to) {
        let answer = feeder.get_block(number.0);
        let failed = !matches!(answer, Ok(Some(_)));
        answers.push(answer);
        if failed {
            break;
        }
    }
    for item in central::stream_new_blocks(from, answers) {
        let (block_number, block) = item.map_err(StateSyncError::CentralSourceError)?;
        sync.process_sync_event(SyncEvent::BlockAvailable { block_number, block })?;
    }
    Ok(true)
}

/// One cycle of the stream of state diffs. `Ok(false)` says that the stream rests.
fn state_diff_cycle(sync: &mut GenericStateSync, feeder: &Feeder) -> Result<bool, StateSyncError> {
    let settings = sync.config();
    let step = sync::stream_new_state_diffs(
        sync.storage().get_state_marker(),
        sync.storage().get_header_marker(),
        settings.block_propagation_sleep_duration,
        settings.state_updates_max_stream_size,
    );
    let (from, up_to) = match step {
        StreamStep::Sleep(_) => return Ok(false),
        StreamStep::Fetch { from, up_to } => (from, up_to),
    };
    for number in from.iter_up_to(up_to) {
        let block_hash = match feeder.block_hash(number) {
            Some(block_hash) => block_hash,
            None => {
                return Err(StateSyncError::CentralSourceError(CentralError::StateUpdateNotFound))
            }
        };
        let event = SyncEvent::state_diff_available(
            number,
            block_hash,
            state_diff(number.0),
            IndexMap::new(),
        );
        sync.process_sync_event(event)?;
    }
    Ok(true)
}

/// One pass: the revert check, then both streams in turn until both rest.
fn sync_while_ok(sync: &mut GenericStateSync, feeder: &mut Feeder) -> Result<(), StateSyncError> {
    revert_check(sync, feeder);
    loop {
        let blocks_moved = block_cycle(sync, feeder)?;
        let diffs_moved = state_diff_cycle(sync, feeder)?;
        if !blocks_moved && !diffs_moved {
            return Ok(());
        }
    }
}

/// Passes until one ends with both streams at rest, or with a failure that
/// ends the run.
fn run(sync: &mut GenericStateSync, feeder: &mut Feeder, trace: &mut Trace) -> Result<(), StateSyncError> {
    loop {
        match sync_while_ok(sync, feeder) {
            Ok(()) => return Ok(()),
            Err(err) => match sync.recover(err) {
                Recovery::Restart => trace.restarts += 1,
                Recovery::RestartAfter(duration) => trace.sleeps.push(duration),
                Recovery::Terminate(err) => return Err(err),
            },
        }
    }
}

fn markers(sync: &GenericStateSync) -> (u64, u64, u64) {
    (
        sync.storage().get_header_marker().0,
        sync.storage().get_body_marker().0,
        sync.storage().get_state_marker().0,
    )
}

fn chain_is_linked(sync: &GenericStateSync) -> bool {
    let marker = sync.storage().get_header_marker().0;
    (1..marker).all(|n| {
        let header = sync.storage().get_block_header(BlockNumber(n)).unwrap();
        let before = sync.storage().get_block_header(BlockNumber(n - 1)).unwrap();
        header.parent_hash == before.block_hash
    })
}

#[test]
fn cold_sync_of_three_blocks() {
    let mut feeder = Feeder::serving(vec![hash(10), hash(11), hash(12)]);
    let mut sync = GenericStateSync::new(config(), Storage::new());
    let mut trace = Trace::default();
    assert_eq!(run(&mut sync, &mut feeder, &mut trace), Ok(()));
    assert_eq!(markers(&sync), (3, 3, 3));
    let header = sync.storage().get_block_header(BlockNumber(1)).unwrap();
    assert_eq!(header.parent_hash, hash(10));
    assert_eq!(header.block_hash, hash(11));
    assert!(trace.sleeps.is_empty());
    assert_eq!(trace.restarts, 0);
}

#[test]
fn catch_up_with_split_cursors() {
    let mut feeder = Feeder::serving((0..6).map(|n| hash(10 + n)).collect());
    let mut sync = GenericStateSync::new(config(), Storage::new());
    // While the stream of state diffs stalls, only blocks arrive.
    while block_cycle(&mut sync, &mut feeder).unwrap() {}
    assert_eq!(markers(&sync), (6, 6, 0));
    // The stall is over.
    let mut trace = Trace::default();
    assert_eq!(run(&mut sync, &mut feeder, &mut trace), Ok(()));
    assert_eq!(markers(&sync), (6, 6, 6));
}

#[test]
fn revert_at_tip() {
    let mut feeder = Feeder::serving(vec![hash(10), hash(11), hash(12)]);
    let mut sync = GenericStateSync::new(config(), Storage::new());
    let mut trace = Trace::default();
    run(&mut sync, &mut feeder, &mut trace).unwrap();
    let old_tip = sync.storage().get_block_header(BlockNumber(2)).unwrap();

    let mut feeder = Feeder::serving(vec![hash(10), hash(11), hash(112)]);
    assert_eq!(run(&mut sync, &mut feeder, &mut trace), Ok(()));

    assert_eq!(markers(&sync), (3, 3, 3));
    assert_eq!(sync.storage().get_ommer_header(hash(12)), Some(old_tip));
    assert!(sync.storage().get_ommer_body(hash(12)).is_some());
    assert!(sync.storage().get_ommer_state_diff(hash(12)).is_some());
    let tip = sync.storage().get_block_header(BlockNumber(2)).unwrap();
    assert_eq!(tip.block_hash, hash(112));
    assert_eq!(tip.parent_hash, hash(11));
    assert_eq!(sync.storage().get_ommer_header(hash(11)), None);
    assert!(chain_is_linked(&sync));
}

#[test]
fn deep_revert() {
    let mut feeder = Feeder::serving((0..11).map(|n| hash(10 + n)).collect());
    let mut sync = GenericStateSync::new(config(), Storage::new());
    let mut trace = Trace::default();
    run(&mut sync, &mut feeder, &mut trace).unwrap();
    assert_eq!(markers(&sync), (11, 11, 11));

    let forked: Vec<BlockHash> =
        (0..11).map(|n| if n < 5 { hash(10 + n) } else { hash(110 + n) }).collect();
    let mut feeder = Feeder::serving(forked);
    assert_eq!(sync_while_ok(&mut sync, &mut feeder), Ok(()));

    assert_eq!(markers(&sync), (11, 11, 11));
    for n in 0..11u64 {
        let header = sync.storage().get_block_header(BlockNumber(n)).unwrap();
        let left = sync.storage().get_ommer_header(hash(10 + n as u128));
        if n < 5 {
            assert_eq!(header.block_hash, hash(10 + n as u128));
            assert_eq!(left, None);
        } else {
            assert_eq!(header.block_hash, hash(110 + n as u128));
            assert_eq!(left.unwrap().block_number, BlockNumber(n));
        }
    }
    assert!(chain_is_linked(&sync));
}

#[test]
fn not_found_ends_the_run() {
    let mut feeder = Feeder::serving((0..6).map(|n| hash(10 + n)).collect());
    let not_found = ClientError::BadResponseStatus { code: 404, message: String::from("Not Found") };
    feeder.failure = Some((3, not_found.clone(), 1));
    let mut sync = GenericStateSync::new(config(), Storage::new());
    let mut trace = Trace::default();
    let ended = run(&mut sync, &mut feeder, &mut trace);
    assert_eq!(
        ended,
        Err(StateSyncError::CentralSourceError(CentralError::ClientError(not_found)))
    );
    assert_eq!(sync.storage().get_header_marker(), BlockNumber(3));
    assert!(trace.sleeps.is_empty());
}

#[test]
fn service_unavailable_is_slept_over() {
    let mut feeder = Feeder::serving((0..6).map(|n| hash(10 + n)).collect());
    let unavailable =
        ClientError::BadResponseStatus { code: 503, message: String::from("Service Unavailable") };
    feeder.failure = Some((3, unavailable, 1));
    let mut sync = GenericStateSync::new(config(), Storage::new());
    let mut trace = Trace::default();
    assert_eq!(run(&mut sync, &mut feeder, &mut trace), Ok(()));
    assert_eq!(trace.sleeps, vec![Duration::from_millis(25)]);
    assert_eq!(markers(&sync), (6, 6, 6));
    assert!(chain_is_linked(&sync));
}

#[test]
fn state_diff_before_its_header() {
    let mut feeder = Feeder::serving((0..7).map(|n| hash(10 + n)).collect());
    let mut sync = GenericStateSync::new(config(), Storage::new());
    let mut trace = Trace::default();
    run(&mut sync, &mut feeder, &mut trace).unwrap();
    assert_eq!(markers(&sync), (7, 7, 7));

    // The feeder has block 7 now, and its state diff overtakes its header.
    let mut feeder = Feeder::serving((0..8).map(|n| hash(10 + n)).collect());
    let early = SyncEvent::state_diff_available(BlockNumber(7), hash(17), state_diff(7), IndexMap::new());
    let refused = sync.process_sync_event(early).unwrap_err();
    assert_eq!(
        refused,
        StateSyncError::StateDiffWithoutMatchingHeader {
            block_number: BlockNumber(7),
            block_hash: hash(17),
        }
    );
    assert_eq!(markers(&sync), (7, 7, 7));
    assert_eq!(sync.recover(refused), Recovery::RestartAfter(Duration::from_millis(25)));

    assert_eq!(run(&mut sync, &mut feeder, &mut trace), Ok(()));
    assert_eq!(markers(&sync), (8, 8, 8));
    assert_eq!(sync.storage().get_block_header(BlockNumber(7)).unwrap().block_hash, hash(17));
    assert!(sync.storage().get_state_diff(BlockNumber(7)).is_some());
    assert!(sync.storage().get_state_diff(BlockNumber(8)).is_none());
}

#[test]
fn replaying_the_same_answers_gives_the_same_store() {
    let hashes: Vec<BlockHash> = (0..9).map(|n| hash(10 + n)).collect();
    let mut first = GenericStateSync::new(config(), Storage::new());
    let mut second = GenericStateSync::new(config(), Storage::new());
    let mut trace = Trace::default();
    run(&mut first, &mut Feeder::serving(hashes.clone()), &mut trace).unwrap();
    run(&mut second, &mut Feeder::serving(hashes), &mut trace).unwrap();
    assert_eq!(markers(&first), markers(&second));
    for n in 0..9u64 {
        let number = BlockNumber(n);
        assert_eq!(first.storage().get_block_header(number), second.storage().get_block_header(number));
        assert_eq!(first.storage().get_body(number), second.storage().get_body(number));
        assert_eq!(first.storage().get_state_diff(number), second.storage().get_state_diff(number));
    }
}

#[test]
fn block_with_a_foreign_parent_restarts_at_once() {
    let mut feeder = Feeder::serving(vec![hash(10), hash(11)]);
    let mut sync = GenericStateSync::new(config(), Storage::new());
    let mut trace = Trace::default();
    run(&mut sync, &mut feeder, &mut trace).unwrap();

    let stray = block(2, hash(12), hash(99));
    let refused = sync
        .process_sync_event(SyncEvent::BlockAvailable { block_number: BlockNumber(2), block: stray })
        .unwrap_err();
    assert_eq!(
        refused,
        StateSyncError::ParentBlockHashMismatch {
            block_number: BlockNumber(2),
            expected_parent_block_hash: hash(99),
            stored_parent_block_hash: hash(11),
        }
    );
    assert_eq!(markers(&sync), (2, 2, 2));
    assert_eq!(sync.recover(refused), Recovery::Restart);
}

#[test]
fn markers_stay_ordered_through_a_run() {
    let mut feeder = Feeder::serving((0..10).map(|n| hash(10 + n)).collect());
    let mut sync = GenericStateSync::new(config(), Storage::new());
    let ordered = |sync: &GenericStateSync| {
        let (header, body, state) = markers(sync);
        header >= body && body >= state
    };
    assert!(ordered(&sync));
    loop {
        let blocks_moved = block_cycle(&mut sync, &mut feeder).unwrap();
        assert!(ordered(&sync));
        let diffs_moved = state_diff_cycle(&mut sync, &feeder).unwrap();
        assert!(ordered(&sync));
        if !blocks_moved && !diffs_moved {
            break;
        }
    }
    assert_eq!(markers(&sync), (10, 10, 10));
    let forked = Feeder::serving((0..10).map(|n| hash(if n < 4 { 10 + n } else { 50 + n })).collect());
    let mut last = sync.last_block_in_storage();
    while let Some(number) = last {
        last = sync.handle_block_reverts(number, forked.block_hash(number));
        assert!(ordered(&sync));
    }
    assert_eq!(markers(&sync), (4, 4, 4));
}

#[test]
fn stored_state_diffs_are_in_canonical_order() {
    let mut feeder = Feeder::serving((0..3).map(|n| hash(10 + n)).collect());
    let mut sync = GenericStateSync::new(config(), Storage::new());
    let mut trace = Trace::default();
    run(&mut sync, &mut feeder, &mut trace).unwrap();
    for n in 0..3u64 {
        let thin = sync.storage().get_state_diff(BlockNumber(n)).unwrap();
        let keys: Vec<(u128, u128)> = thin.nonces.keys().copied().collect();
        assert_eq!(keys, vec![(0, 3), (0, 9)]);
        assert_eq!(thin.nonces.get(&(0, 9)), Some(&(0, n as u128)));
    }
    // Reverted state diffs keep their order.
    let mut feeder = Feeder::serving(vec![hash(10), hash(11), hash(99)]);
    run(&mut sync, &mut feeder, &mut trace).unwrap();
    let filed = sync.storage().get_ommer_state_diff(hash(12)).unwrap();
    let keys: Vec<(u128, u128)> = filed.nonces.keys().copied().collect();
    assert_eq!(keys, vec![(0, 3), (0, 9)]);
}
