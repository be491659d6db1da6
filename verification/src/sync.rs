//! The sync engine: what it does with each block and each state diff that
//! arrives, how it rolls the store back, and how it goes on after a failure.

use crate::block::Block;
use crate::block::BlockHash;
use crate::block::BlockNumber;
use crate::central::CentralError;
use crate::central::ClientError;
use crate::central::NOT_FOUND;
use crate::index_map::FeltKey;
use crate::state::sort_state_diff;
use crate::state::DeprecatedContractClass;
use crate::state::StateDiff;
use crate::state::ThinStateDiff;
use crate::storage::OmmerStateDiff;
use crate::storage::Storage;
use crate::storage::StorageError;
use crate::storage::StorageView;
use crate::storage::StoredStateDiff;
use indexmap::IndexMap;
use std::sync::Arc;
use std::time::Duration;
use vstd::prelude::*;

verus! {

/// How the engine paces itself.
#[derive(Clone, Copy, Debug, PartialEq, Eq)]
pub struct SyncConfig {
    /// How long a stream rests when it has caught up.
    pub block_propagation_sleep_duration: Duration,
    /// How long the engine rests after a failure that may pass.
    pub recoverable_error_sleep_duration: Duration,
    /// The most blocks that one request to the feeder asks for.
    pub blocks_max_stream_size: u32,
    /// The most state diffs that one request to the feeder is meant to ask for.
    pub state_updates_max_stream_size: u32,
}

/// Why a pass of the engine ended.
#[derive(Clone, Debug, PartialEq, Eq)]
pub enum StateSyncError {
    StorageError(StorageError),
    CentralSourceError(CentralError),
    /// The block's parent is not the block that the store holds before it.
    ParentBlockHashMismatch {
        block_number: BlockNumber,
        expected_parent_block_hash: BlockHash,
        stored_parent_block_hash: BlockHash,
    },
    /// No header, stored or reverted, has the hash that the state diff names.
    StateDiffWithoutMatchingHeader { block_number: BlockNumber, block_hash: BlockHash },
}

pub type StateSyncResult = Result<(), StateSyncError>;

/// What a stream hands to the engine.
#[derive(Debug, PartialEq, Eq)]
pub enum SyncEvent {
    BlockAvailable { block_number: BlockNumber, block: Block },
    StateDiffAvailable {
        block_number: BlockNumber,
        block_hash: BlockHash,
        state_diff: StateDiff,
        /// The definitions of the classes that the diff's deployed contracts use
        /// and that the diff does not declare.
        deployed_contract_class_definitions: IndexMap<FeltKey, DeprecatedContractClass>,
    },
}

impl SyncEvent {
    /// The event for a state diff that the feeder served: the diff is brought
    /// into canonical order, and nothing else changes.
    pub fn state_diff_available(
        block_number: BlockNumber,
        block_hash: BlockHash,
        state_diff: StateDiff,
        deployed_contract_class_definitions: IndexMap<FeltKey, DeprecatedContractClass>,
    ) -> (event: SyncEvent)
        ensures
            event matches SyncEvent::StateDiffAvailable {
                block_number: number,
                block_hash: hash,
                state_diff: sorted,
                deployed_contract_class_definitions: definitions,
            } && number == block_number && hash == block_hash && sorted.is_canonical() && sorted.holds_what(
                state_diff,
            ) && definitions == deployed_contract_class_definitions,
    {
        let mut state_diff = state_diff;
        sort_state_diff(&mut state_diff);
        SyncEvent::StateDiffAvailable {
            block_number,
            block_hash,
            state_diff,
            deployed_contract_class_definitions,
        }
    }
}

/// What a stream does next.
#[derive(Clone, Copy, Debug, PartialEq, Eq)]
pub enum StreamStep {
    /// Nothing is there to fetch: rest, then look again.
    Sleep(Duration),
    /// Ask the feeder for the blocks from `from` up to, and without, `up_to`.
    Fetch { from: BlockNumber, up_to: BlockNumber },
}

/// Where a request that starts at `marker` ends: at `last_block_number`, or
/// `max_stream_size` blocks on, whichever comes first.
pub open spec fn window_end(marker: BlockNumber, last_block_number: BlockNumber, max_stream_size: u32) -> BlockNumber {
    if last_block_number.0 <= marker.0 + max_stream_size {
        last_block_number
    } else {
        BlockNumber((marker.0 + max_stream_size) as u64)
    }
}

/// Where a request that starts at `marker` ends.
pub fn up_to(marker: BlockNumber, last_block_number: BlockNumber, max_stream_size: u32) -> (r: BlockNumber)
    ensures
        r == window_end(marker, last_block_number, max_stream_size),
{
    if last_block_number.0 <= marker.0 {
        last_block_number
    } else if last_block_number.0 - marker.0 <= max_stream_size as u64 {
        last_block_number
    } else {
        BlockNumber(marker.0 + max_stream_size as u64)
    }
}

/// The next step of the stream of blocks, from the header marker of the store
/// and the block marker of the feeder: rest where the two are equal, else
/// fetch from the header marker on, `max_stream_size` blocks at most.
pub fn stream_new_blocks(
    header_marker: BlockNumber,
    last_block_number: BlockNumber,
    block_propagation_sleep_duration: Duration,
    max_stream_size: u32,
) -> (step: StreamStep)
    ensures
        header_marker == last_block_number ==> step == StreamStep::Sleep(block_propagation_sleep_duration),
        header_marker != last_block_number ==> step == (StreamStep::Fetch {
            from: header_marker,
            up_to: window_end(header_marker, last_block_number, max_stream_size),
        }),
{
    if header_marker == last_block_number {
        return StreamStep::Sleep(block_propagation_sleep_duration);
    }
    StreamStep::Fetch { from: header_marker, up_to: up_to(header_marker, last_block_number, max_stream_size) }
}

/// The next step of the stream of state diffs, from the state marker and the
/// header marker of the store: rest where the two are equal, else fetch from
/// the state marker up to the header marker. No state diff is asked for before
/// its block has a header. The request runs up to the header marker whatever
/// `max_stream_size` is.
pub fn stream_new_state_diffs(
    state_marker: BlockNumber,
    last_block_number: BlockNumber,
    block_propagation_sleep_duration: Duration,
    max_stream_size: u32,
) -> (step: StreamStep)
    ensures
        state_marker == last_block_number ==> step == StreamStep::Sleep(block_propagation_sleep_duration),
        state_marker != last_block_number ==> step == (StreamStep::Fetch {
            from: state_marker,
            up_to: last_block_number,
        }),
{
    if state_marker == last_block_number {
        return StreamStep::Sleep(block_propagation_sleep_duration);
    }
    StreamStep::Fetch { from: state_marker, up_to: last_block_number }
}

/// The text of the error for a block whose parent the store does not hold.
pub uninterp spec fn missing_block_message(prev_block_number: u64, block_number: u64) -> Seq<char>;

/// `format!` on the two block numbers: the text of the error for a block
/// whose parent the store does not hold.
#[verifier::external_body]
fn format_missing_block(prev_block_number: u64, block_number: u64) -> (msg: String)
    ensures
        msg@ == missing_block_message(prev_block_number, block_number),
{
    format!("Missing block {prev_block_number} in the storage (for verifying block {block_number}).")
}

/// Block `n` may follow what the store holds: it is the first block, or the
/// store holds the block before it, and that block's hash is `parent_hash`.
pub open spec fn parent_consistent(s: StorageView, n: BlockNumber, parent_hash: BlockHash) -> bool {
    n.0 == 0 || (n.0 - 1 < s.headers.len() && s.headers[n.0 - 1].block_hash == parent_hash)
}

/// `e` is the error owed to a block `n` that may not follow what the store
/// holds: an inconsistency where the block before it is missing, else the
/// mismatch of the two hashes.
pub open spec fn parent_check_error(s: StorageView, n: BlockNumber, parent_hash: BlockHash, e: StateSyncError) -> bool {
    &&& n.0 > 0
    &&& if n.0 - 1 < s.headers.len() {
        &&& s.headers[n.0 - 1].block_hash != parent_hash
        &&& e == (StateSyncError::ParentBlockHashMismatch {
            block_number: n,
            expected_parent_block_hash: parent_hash,
            stored_parent_block_hash: s.headers[n.0 - 1].block_hash,
        })
    } else {
        &&& e matches StateSyncError::StorageError(StorageError::DBInconsistency { msg })
        &&& msg@ == missing_block_message((n.0 - 1) as u64, n.0)
    }
}

/// Block `n` can be stored: it may follow what the store holds, and both the
/// header marker and the body marker stand at `n`.
pub open spec fn can_store_block(s: StorageView, n: BlockNumber, block: Block) -> bool {
    &&& parent_consistent(s, n, block.header.parent_hash)
    &&& n.0 == s.header_marker()
    &&& n.0 == s.body_marker()
}

/// The store with one more block.
pub open spec fn with_block(s: StorageView, block: Block) -> StorageView {
    s.append_header(block.header).append_body(block.body)
}

/// `e` is the error owed to a block that cannot be stored.
pub open spec fn store_block_error(s: StorageView, n: BlockNumber, block: Block, e: StateSyncError) -> bool {
    if !parent_consistent(s, n, block.header.parent_hash) {
        parent_check_error(s, n, block.header.parent_hash, e)
    } else if n.0 != s.header_marker() {
        e == StateSyncError::StorageError(
            StorageError::MarkerMismatch { expected: BlockNumber(s.header_marker() as u64), found: n },
        )
    } else {
        &&& n.0 != s.body_marker()
        &&& e == StateSyncError::StorageError(
            StorageError::MarkerMismatch { expected: BlockNumber(s.body_marker() as u64), found: n },
        )
    }
}

/// The store holds a header for block `n`, and it has this hash.
pub open spec fn header_matches(s: StorageView, n: BlockNumber, block_hash: BlockHash) -> bool {
    n.0 < s.headers.len() && s.headers[n.0 as int].block_hash == block_hash
}

/// The store after a state diff for block `n` with hash `block_hash` arrived.
/// With a matching header and the state marker at `n` the diff is appended.
/// With no matching header, but a reverted header of that hash, the diff is
/// filed with the reverted state diffs. In all other cases nothing changes.
pub open spec fn with_state_diff(
    s: StorageView,
    n: BlockNumber,
    block_hash: BlockHash,
    state_diff: StateDiff,
    deployed_contract_class_definitions: IndexMap<FeltKey, DeprecatedContractClass>,
) -> StorageView {
    if header_matches(s, n, block_hash) {
        if n.0 == s.state_marker() {
            s.append_state_diff(StoredStateDiff { state_diff, deployed_contract_class_definitions })
        } else {
            s
        }
    } else if s.ommer_headers.contains_key(block_hash) {
        s.insert_ommer_state_diff(block_hash, OmmerStateDiff::of_state_diff(state_diff))
    } else {
        s
    }
}

/// A state diff for block `n` with hash `block_hash` is taken in.
pub open spec fn state_diff_accepted(s: StorageView, n: BlockNumber, block_hash: BlockHash) -> bool {
    if header_matches(s, n, block_hash) {
        n.0 == s.state_marker()
    } else {
        s.ommer_headers.contains_key(block_hash)
    }
}

/// `e` is the error owed to a state diff that is not taken in.
pub open spec fn state_diff_error(s: StorageView, n: BlockNumber, block_hash: BlockHash, e: StateSyncError) -> bool {
    if header_matches(s, n, block_hash) {
        e == StateSyncError::StorageError(
            StorageError::MarkerMismatch { expected: BlockNumber(s.state_marker() as u64), found: n },
        )
    } else {
        e == (StateSyncError::StateDiffWithoutMatchingHeader { block_number: n, block_hash })
    }
}

/// The store after an event.
pub open spec fn apply_event(s: StorageView, event: SyncEvent) -> StorageView {
    match event {
        SyncEvent::BlockAvailable { block_number, block } => {
            if can_store_block(s, block_number, block) {
                with_block(s, block)
            } else {
                s
            }
        },
        SyncEvent::StateDiffAvailable {
            block_number,
            block_hash,
            state_diff,
            deployed_contract_class_definitions,
        } => with_state_diff(s, block_number, block_hash, state_diff, deployed_contract_class_definitions),
    }
}

/// The event is taken in.
pub open spec fn event_accepted(s: StorageView, event: SyncEvent) -> bool {
    match event {
        SyncEvent::BlockAvailable { block_number, block } => can_store_block(s, block_number, block),
        SyncEvent::StateDiffAvailable { block_number, block_hash, .. } => state_diff_accepted(
            s,
            block_number,
            block_hash,
        ),
    }
}

/// `e` is the error owed to an event that is not taken in.
pub open spec fn event_error(s: StorageView, event: SyncEvent, e: StateSyncError) -> bool {
    match event {
        SyncEvent::BlockAvailable { block_number, block } => store_block_error(s, block_number, block, e),
        SyncEvent::StateDiffAvailable { block_number, block_hash, .. } => state_diff_error(
            s,
            block_number,
            block_hash,
            e,
        ),
    }
}

/// The store after block `n` was reverted. Where block `n` is not the last
/// block with a header, nothing changes. Else its header leaves the table and
/// is filed under its hash; so are its body and its state diff, as far as the
/// store holds them.
pub open spec fn after_revert(s: StorageView, n: BlockNumber) -> StorageView {
    match s.reverted_header(n) {
        None => s,
        Some(header) => {
            let s1 = s.revert_header(n).insert_ommer_header(header.block_hash, header);
            let s2 = match s1.reverted_body(n) {
                Some(body) => s1.revert_body(n).insert_ommer_body(header.block_hash, body),
                None => s1,
            };
            match s2.reverted_state_diff(n) {
                Some(row) => s2.revert_state_diff(n).insert_ommer_state_diff(
                    header.block_hash,
                    OmmerStateDiff::of_state_diff(row.state_diff),
                ),
                None => s2,
            }
        },
    }
}

/// Block `n` is to be reverted: the feeder has no block `n`, or the store holds
/// a header for block `n` whose hash is not the feeder's.
pub open spec fn should_revert(s: StorageView, n: BlockNumber, central_block_hash: Option<BlockHash>) -> bool {
    match central_block_hash {
        None => true,
        Some(hash) => n.0 < s.headers.len() && s.headers[n.0 as int].block_hash != hash,
    }
}

/// The store after the feeder's word on block `n` was heard.
pub open spec fn after_revert_check(s: StorageView, n: BlockNumber, central_block_hash: Option<BlockHash>) -> StorageView {
    if should_revert(s, n, central_block_hash) {
        after_revert(s, n)
    } else {
        s
    }
}

/// A failure after which the engine may go on.
pub open spec fn recoverable(err: StateSyncError) -> bool {
    match err {
        StateSyncError::CentralSourceError(CentralError::ClientError(client_err)) => match client_err {
            ClientError::RequestError { is_request, .. } => !is_request,
            ClientError::BadResponseStatus { code, .. } => code != NOT_FOUND,
            ClientError::SerdeError { is_syntax, .. } => !is_syntax,
            _ => true,
        },
        StateSyncError::CentralSourceError(CentralError::StorageError(StorageError::InnerError { .. })) => true,
        StateSyncError::StorageError(StorageError::InnerError { .. }) => true,
        StateSyncError::StateDiffWithoutMatchingHeader { .. } => true,
        _ => false,
    }
}

/// Whether the engine may go on after this failure. A failure of the feeder's
/// client passes unless the request could not even be made, the server said
/// "not found", or the answer was no well-formed document. A failure of the
/// store's backend passes, wherever it was met, and so does a state diff that
/// came before its header. Nothing else does.
pub fn is_recoverable(err: &StateSyncError) -> (r: bool)
    ensures
        r == recoverable(*err),
{
    match err {
        StateSyncError::CentralSourceError(central_err) => {
            match central_err {
                CentralError::ClientError(client_err) => {
                    match client_err {
                        ClientError::RequestError { is_request, .. } => !*is_request,
                        ClientError::BadResponseStatus { code, .. } => *code != NOT_FOUND,
                        ClientError::SerdeError { is_syntax, .. } => !*is_syntax,
                        _ => true,
                    }
                },
                CentralError::StorageError(storage_err) => {
                    match storage_err {
                        StorageError::InnerError { .. } => true,
                        _ => false,
                    }
                },
                _ => false,
            }
        },
        StateSyncError::StorageError(storage_err) => {
            match storage_err {
                StorageError::InnerError { .. } => true,
                _ => false,
            }
        },
        StateSyncError::StateDiffWithoutMatchingHeader { .. } => true,
        _ => false,
    }
}

/// How the engine goes on after a pass that failed.
#[derive(Debug, PartialEq, Eq)]
pub enum Recovery {
    /// Start the next pass at once.
    Restart,
    /// Rest, then start the next pass.
    RestartAfter(Duration),
    /// Stop for good, with the failure.
    Terminate(StateSyncError),
}

/// The engine: its settings and its store. It holds no source of blocks: its
/// caller asks the feeder and hands over what the feeder answers.
pub struct GenericStateSync {
    config: SyncConfig,
    storage: Storage,
}

pub type StateSync = GenericStateSync;

impl View for GenericStateSync {
    type V = StorageView;

    /// What the engine's store holds.
    closed spec fn view(&self) -> StorageView {
        self.storage@
    }
}

impl GenericStateSync {
    /// The engine's settings.
    pub closed spec fn spec_config(&self) -> SyncConfig {
        self.config
    }

    /// An engine on this store.
    pub fn new(config: SyncConfig, storage: Storage) -> (r: GenericStateSync)
        ensures
            r@ == storage@,
            r.spec_config() == config,
    {
        GenericStateSync { config, storage }
    }

    /// The engine's settings.
    #[verifier::when_used_as_spec(spec_config)]
    pub fn config(&self) -> (r: SyncConfig)
        ensures
            r == self.spec_config(),
    {
        self.config
    }

    /// Takes the store out of the engine, for a transaction that will put its
    /// commit back; an empty store stands in meanwhile.
    fn take_storage(&mut self) -> (r: Storage)
        ensures
            r@ == old(self)@,
            final(self).config == old(self).config,
    {
        let mut storage = Storage::new();
        std::mem::swap(&mut self.storage, &mut storage);
        storage
    }

    /// The engine's store, to read.
    pub fn storage(&self) -> (r: &Storage)
        ensures
            r@ == self@,
    {
        &self.storage
    }

    /// How to go on after a pass that ended with `err`. A parent hash mismatch
    /// means that the feeder's chain has left the stored one: the next pass
    /// starts at once, and its revert check rolls the store back. After any
    /// other failure that may pass, the engine rests for the time its settings
    /// give. Any other failure ends the run.
    pub fn recover(&self, err: StateSyncError) -> (r: Recovery)
        ensures
            err is ParentBlockHashMismatch ==> r == Recovery::Restart,
            !(err is ParentBlockHashMismatch) && recoverable(err) ==> r == Recovery::RestartAfter(
                self.spec_config().recoverable_error_sleep_duration,
            ),
            !(err is ParentBlockHashMismatch) && !recoverable(err) ==> r == Recovery::Terminate(err),
    {
        if let StateSyncError::ParentBlockHashMismatch { .. } = err {
            return Recovery::Restart;
        }
        if is_recoverable(&err) {
            return Recovery::RestartAfter(self.config.recoverable_error_sleep_duration);
        }
        Recovery::Terminate(err)
    }

    /// Takes in one event of a stream: stores the block or the state diff that
    /// it brings. Where the event is refused the store stays as it was.
    pub fn process_sync_event(&mut self, sync_event: SyncEvent) -> (r: StateSyncResult)
        ensures
            final(self).spec_config() == old(self).spec_config(),
            final(self)@ == apply_event(old(self)@, sync_event),
            match r {
                Ok(()) => event_accepted(old(self)@, sync_event),
                Err(e) => !event_accepted(old(self)@, sync_event) && event_error(old(self)@, sync_event, e),
            },
    {
        match sync_event {
            SyncEvent::BlockAvailable { block_number, block } => self.store_block(block_number, block),
            SyncEvent::StateDiffAvailable {
                block_number,
                block_hash,
                state_diff,
                deployed_contract_class_definitions,
            } => self.store_state_diff(block_number, block_hash, state_diff, deployed_contract_class_definitions),
        }
    }

    /// Stores a block: its header and its body, both or neither. The block
    /// must follow the stored chain; a block whose parent hash is not the hash
    /// of the stored block before it is refused with the mismatch, which tells
    /// the caller that the feeder's chain has left the stored one.
    pub fn store_block(&mut self, block_number: BlockNumber, block: Block) -> (r: StateSyncResult)
        ensures
            final(self).spec_config() == old(self).spec_config(),
            match r {
                Ok(()) => can_store_block(old(self)@, block_number, block) && final(self)@ == with_block(
                    old(self)@,
                    block,
                ),
                Err(e) => !can_store_block(old(self)@, block_number, block) && final(self)@ == old(self)@
                    && store_block_error(old(self)@, block_number, block, e),
            },
    {
        match self.verify_parent_block_hash(block_number, &block) {
            Ok(()) => {},
            Err(e) => {
                return Err(e);
            },
        }
        let header_marker = self.storage.get_header_marker();
        if header_marker.0 != block_number.0 {
            return Err(
                StateSyncError::StorageError(
                    StorageError::MarkerMismatch { expected: header_marker, found: block_number },
                ),
            );
        }
        let body_marker = self.storage.get_body_marker();
        if body_marker.0 != block_number.0 {
            return Err(
                StateSyncError::StorageError(
                    StorageError::MarkerMismatch { expected: body_marker, found: block_number },
                ),
            );
        }
        // Both appends are due, so the transaction needs no snapshot to fall back on.
        let txn = self.take_storage().into_rw_txn();
        let txn = match txn.append_header(block_number, &block.header) {
            Ok(txn) => txn,
            Err(_) => unreached(),
        };
        let txn = match txn.append_body(block_number, block.body) {
            Ok(txn) => txn,
            Err(_) => unreached(),
        };
        self.storage = txn.commit();
        Ok(())
    }

    /// Stores a state diff. It is appended where the store holds a header of
    /// block `block_number` with hash `block_hash`. Where it holds none, but a
    /// reverted header has that hash, the diff belongs to a fork that was left,
    /// and it is filed with the reverted state diffs, in thin form and with the
    /// classes it declared. Else it is refused: its header may yet arrive.
    pub fn store_state_diff(
        &mut self,
        block_number: BlockNumber,
        block_hash: BlockHash,
        state_diff: StateDiff,
        deployed_contract_class_definitions: IndexMap<FeltKey, DeprecatedContractClass>,
    ) -> (r: StateSyncResult)
        ensures
            final(self).spec_config() == old(self).spec_config(),
            final(self)@ == with_state_diff(
                old(self)@,
                block_number,
                block_hash,
                state_diff,
                deployed_contract_class_definitions,
            ),
            match r {
                Ok(()) => state_diff_accepted(old(self)@, block_number, block_hash),
                Err(e) => !state_diff_accepted(old(self)@, block_number, block_hash) && state_diff_error(
                    old(self)@,
                    block_number,
                    block_hash,
                    e,
                ),
            },
    {
        let reverted = match self.is_reverted_state_diff(block_number, block_hash) {
            Ok(reverted) => reverted,
            Err(e) => {
                return Err(e);
            },
        };
        if !reverted {
            let state_marker = self.storage.get_state_marker();
            if state_marker.0 != block_number.0 {
                return Err(
                    StateSyncError::StorageError(
                        StorageError::MarkerMismatch { expected: state_marker, found: block_number },
                    ),
                );
            }
            let txn = self.take_storage().into_rw_txn();
            let txn = match txn.append_state_diff(block_number, state_diff, deployed_contract_class_definitions) {
                Ok(txn) => txn,
                Err(_) => unreached(),
            };
            self.storage = txn.commit();
        } else {
            let (thin_state_diff, declared_classes, _deprecated_declared_classes) = ThinStateDiff::from_state_diff(
                state_diff,
            );
            assert(OmmerStateDiff::of_parts(thin_state_diff, declared_classes) == OmmerStateDiff::of_state_diff(
                state_diff,
            ));
            let txn = self.take_storage().into_rw_txn();
            let txn = txn.insert_ommer_state_diff(block_hash, Arc::new(thin_state_diff), Arc::new(declared_classes));
            self.storage = txn.commit();
        }
        Ok(())
    }

    /// Holds the parent hash of an incoming block against the stored block
    /// before it.
    pub fn verify_parent_block_hash(&self, block_number: BlockNumber, block: &Block) -> (r: StateSyncResult)
        ensures
            match r {
                Ok(()) => parent_consistent(self@, block_number, block.header.parent_hash),
                Err(e) => parent_check_error(self@, block_number, block.header.parent_hash, e),
            },
    {
        let prev_block_number = match block_number.prev() {
            None => {
                return Ok(());
            },
            Some(bn) => bn,
        };
        let prev_hash = match self.storage.get_block_header(prev_block_number) {
            Some(header) => header.block_hash,
            None => {
                return Err(
                    StateSyncError::StorageError(
                        StorageError::DBInconsistency {
                            msg: format_missing_block(prev_block_number.0, block_number.0),
                        },
                    ),
                );
            },
        };
        if prev_hash != block.header.parent_hash {
            return Err(
                StateSyncError::ParentBlockHashMismatch {
                    block_number,
                    expected_parent_block_hash: block.header.parent_hash,
                    stored_parent_block_hash: prev_hash,
                },
            );
        }
        Ok(())
    }

    /// The last block that the store has a header for, if it has any: where
    /// the revert check of a pass starts.
    pub fn last_block_in_storage(&self) -> (r: Option<BlockNumber>)
        ensures
            r == BlockNumber(self@.header_marker() as u64).spec_prev(),
    {
        self.storage.get_header_marker().prev()
    }

    /// One step of the revert check: given the hash that the feeder has for
    /// block `block_number`, reverts the block if it is to be reverted, and
    /// says which block to hold against the feeder next. `None` ends the pass.
    pub fn handle_block_reverts(&mut self, block_number: BlockNumber, central_block_hash: Option<BlockHash>) -> (next:
        Option<BlockNumber>)
        ensures
            final(self).spec_config() == old(self).spec_config(),
            final(self)@ == after_revert_check(old(self)@, block_number, central_block_hash),
            next == if should_revert(old(self)@, block_number, central_block_hash) {
                block_number.spec_prev()
            } else {
                None
            },
    {
        if self.should_revert_block(block_number, central_block_hash) {
            self.revert_block(block_number);
            block_number.prev()
        } else {
            None
        }
    }

    /// Takes block `block_number` out of the tables, if it is the last block
    /// with a header, and files what the store held of it under the block's
    /// hash, all in one transaction. The deprecated classes that the block's
    /// state diff declared are not filed.
    pub fn revert_block(&mut self, block_number: BlockNumber)
        ensures
            final(self).spec_config() == old(self).spec_config(),
            final(self)@ == after_revert(old(self)@, block_number),
    {
        let txn = self.take_storage().into_rw_txn();
        let (txn, reverted_header) = txn.revert_header(block_number);
        let mut txn = txn;
        if let Some(header) = reverted_header {
            txn = txn.insert_ommer_header(header.block_hash, &header);
            let (reverted, body) = txn.revert_body(block_number);
            txn = reverted;
            if let Some(body) = body {
                txn = txn.insert_ommer_body(header.block_hash, body);
            }
            let (reverted, state_diff) = txn.revert_state_diff(block_number);
            txn = reverted;
            if let Some((thin_state_diff, declared_classes, _deprecated_declared_classes)) = state_diff {
                txn = txn.insert_ommer_state_diff(header.block_hash, thin_state_diff, declared_classes);
            }
        }
        self.storage = txn.commit();
    }

    /// Whether block `block_number` is to be reverted, given the hash that the
    /// feeder has for it: yes where the feeder has none, or where the stored
    /// header of the block has another hash.
    pub fn should_revert_block(&self, block_number: BlockNumber, central_block_hash: Option<BlockHash>) -> (r: bool)
        ensures
            r == should_revert(self@, block_number, central_block_hash),
    {
        match central_block_hash {
            Some(central_block_hash) => {
                match self.storage.get_block_header(block_number) {
                    Some(block_header) => block_header.block_hash != central_block_hash,
                    None => false,
                }
            },
            None => true,
        }
    }

    /// Whether a state diff for block `block_number` with hash `block_hash`
    /// belongs to a fork that was left: `false` where the stored header of the
    /// block has that hash, `true` where it has not but a reverted header has,
    /// and an error where no header has.
    pub fn is_reverted_state_diff(&self, block_number: BlockNumber, block_hash: BlockHash) -> (r: Result<
        bool,
        StateSyncError,
    >)
        ensures
            match r {
                Ok(reverted) => if reverted {
                    !header_matches(self@, block_number, block_hash) && self@.ommer_headers.contains_key(block_hash)
                } else {
                    header_matches(self@, block_number, block_hash)
                },
                Err(e) => !header_matches(self@, block_number, block_hash) && !self@.ommer_headers.contains_key(
                    block_hash,
                ) && e == (StateSyncError::StateDiffWithoutMatchingHeader { block_number, block_hash }),
            },
    {
        if let Some(storage_header) = self.storage.get_block_header(block_number) {
            if storage_header.block_hash == block_hash {
                return Ok(false);
            }
        }
        match self.storage.get_ommer_header(block_hash) {
            Some(_) => Ok(true),
            None => Err(StateSyncError::StateDiffWithoutMatchingHeader { block_number, block_hash }),
        }
    }
}

} // verus!
