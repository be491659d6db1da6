//! What holds of the store however the engine is driven.
//!
//! The engine is fed two kinds of input: the events of the streams, and the
//! feeder's word on the hash of a stored block. Each law below speaks of the
//! store before and after such inputs.

use crate::block::BlockHash;
use crate::block::BlockNumber;
use crate::index_map::FeltKey;
use crate::state::DeprecatedContractClass;
use crate::state::StateDiff;
use crate::storage::OmmerStateDiff;
use crate::storage::StorageView;
use crate::sync::after_revert;
use crate::sync::after_revert_check;
use crate::sync::apply_event;
use crate::sync::should_revert;
use crate::sync::with_state_diff;
use crate::sync::SyncEvent;
use indexmap::IndexMap;
use vstd::prelude::*;

verus! {

/// One input to the engine.
pub enum EngineInput {
    /// An event of a stream, handed to `process_sync_event`.
    Event(SyncEvent),
    /// The feeder's hash for a block, handed to `handle_block_reverts`.
    RevertCheck { block_number: BlockNumber, central_block_hash: Option<BlockHash> },
}

/// The store after one input.
pub open spec fn step(s: StorageView, input: EngineInput) -> StorageView {
    match input {
        EngineInput::Event(event) => apply_event(s, event),
        EngineInput::RevertCheck { block_number, central_block_hash } => after_revert_check(
            s,
            block_number,
            central_block_hash,
        ),
    }
}

/// The store after a sequence of inputs, taken in order.
pub open spec fn replay(s: StorageView, inputs: Seq<EngineInput>) -> StorageView
    decreases inputs.len(),
{
    if inputs.len() == 0 {
        s
    } else {
        step(replay(s, inputs.drop_last()), inputs.last())
    }
}

/// Each stored header but the first names the stored header before it as its
/// parent.
pub open spec fn chain_linked(s: StorageView) -> bool {
    forall|n: int| 0 < n < s.headers.len() ==> (#[trigger] s.headers[n]).parent_hash == s.headers[n - 1].block_hash
}

/// Headers and bodies have gone equally far, and state diffs no further.
pub open spec fn markers_in_step(s: StorageView) -> bool {
    s.body_marker() == s.header_marker() && s.state_marker() <= s.body_marker()
}

/// Every stored state diff is in canonical order.
pub open spec fn diffs_canonical(s: StorageView) -> bool {
    forall|n: int| 0 <= n < s.state_diffs.len() ==> (#[trigger] s.state_diffs[n]).state_diff.is_canonical()
}

/// The input brings no state diff that is out of canonical order.
pub open spec fn input_canonical(input: EngineInput) -> bool {
    input matches EngineInput::Event(SyncEvent::StateDiffAvailable { state_diff, .. }) ==> state_diff.is_canonical()
}

/// One input leaves a linked chain linked.
pub proof fn step_keeps_chain(s: StorageView, input: EngineInput)
    requires
        chain_linked(s),
    ensures
        chain_linked(step(s, input)),
{
}

/// Whatever the engine is fed, starting from a store whose headers are
/// linked, the headers stay linked: each names the one before it as its parent.
pub proof fn parent_hashes_stay_linked(s: StorageView, inputs: Seq<EngineInput>)
    requires
        chain_linked(s),
    ensures
        chain_linked(replay(s, inputs)),
    decreases inputs.len(),
{
    if inputs.len() > 0 {
        parent_hashes_stay_linked(s, inputs.drop_last());
        step_keeps_chain(replay(s, inputs.drop_last()), inputs.last());
    }
}

/// Whatever the engine is fed, starting from the empty store, the stored
/// headers are linked.
pub proof fn parent_hashes_linked_from_empty(inputs: Seq<EngineInput>)
    ensures
        chain_linked(replay(StorageView::empty(), inputs)),
{
    parent_hashes_stay_linked(StorageView::empty(), inputs);
}

/// One input leaves the markers in step.
pub proof fn step_keeps_markers(s: StorageView, input: EngineInput)
    requires
        markers_in_step(s),
    ensures
        markers_in_step(step(s, input)),
{
}

/// Whatever the engine is fed, starting from a store whose markers are in
/// step, the header marker is never behind the body marker, nor the body
/// marker behind the state marker.
pub proof fn markers_stay_ordered(s: StorageView, inputs: Seq<EngineInput>)
    requires
        markers_in_step(s),
    ensures
        markers_in_step(replay(s, inputs)),
        replay(s, inputs).header_marker() >= replay(s, inputs).body_marker(),
        replay(s, inputs).body_marker() >= replay(s, inputs).state_marker(),
    decreases inputs.len(),
{
    if inputs.len() > 0 {
        markers_stay_ordered(s, inputs.drop_last());
        step_keeps_markers(replay(s, inputs.drop_last()), inputs.last());
    }
}

/// Whatever the engine is fed, starting from the empty store, the markers are
/// ordered.
pub proof fn markers_ordered_from_empty(inputs: Seq<EngineInput>)
    ensures
        replay(StorageView::empty(), inputs).header_marker() >= replay(StorageView::empty(), inputs).body_marker(),
        replay(StorageView::empty(), inputs).body_marker() >= replay(StorageView::empty(), inputs).state_marker(),
{
    markers_stay_ordered(StorageView::empty(), inputs);
}

/// After the last block with a header was reverted, the store has no header
/// for its number, and its header is filed under its hash. No other header
/// left the table.
pub proof fn reverted_header_is_filed(s: StorageView, n: BlockNumber)
    requires
        s.header_marker() == n.0 + 1,
    ensures
        after_revert(s, n).header_at(n) is None,
        after_revert(s, n).headers == s.headers.take(n.0 as int),
        after_revert(s, n).ommer_header(s.headers[n.0 as int].block_hash) == Some(s.headers[n.0 as int]),
{
    assert(s.headers.drop_last() =~= s.headers.take(n.0 as int));
}

/// After the last block was reverted in a store whose markers are in step,
/// its body is filed under its hash, and so is its state diff if the store
/// held one.
pub proof fn reverted_block_is_filed(s: StorageView, n: BlockNumber)
    requires
        markers_in_step(s),
        s.header_marker() == n.0 + 1,
    ensures
        after_revert(s, n).body_marker() == n.0,
        after_revert(s, n).state_marker() <= n.0,
        after_revert(s, n).ommer_bodies.contains_key(s.headers[n.0 as int].block_hash),
        after_revert(s, n).ommer_bodies[s.headers[n.0 as int].block_hash] == s.bodies[n.0 as int],
        s.state_marker() == n.0 + 1 ==> after_revert(s, n).ommer_state_diffs.contains_key(
            s.headers[n.0 as int].block_hash,
        ) && after_revert(s, n).ommer_state_diffs[s.headers[n.0 as int].block_hash] == OmmerStateDiff::of_state_diff(
            s.state_diffs[n.0 as int].state_diff,
        ),
{
}

/// A revert check whose block is to be reverted, and is the last block with a
/// header, leaves no header at its number and files the header under its hash.
pub proof fn revert_check_files_header(s: StorageView, n: BlockNumber, central_block_hash: Option<BlockHash>)
    requires
        s.header_marker() == n.0 + 1,
        should_revert(s, n, central_block_hash),
    ensures
        step(s, EngineInput::RevertCheck { block_number: n, central_block_hash }).header_at(n) is None,
        step(s, EngineInput::RevertCheck { block_number: n, central_block_hash }).ommer_header(
            s.headers[n.0 as int].block_hash,
        ) == Some(s.headers[n.0 as int]),
{
    reverted_header_is_filed(s, n);
}

/// The store after a whole revert check: the last block with a header is held
/// against the feeder's hash for it, reverted if it is to be reverted, and so
/// on downwards until a block stays or no block is left. `central` gives the
/// feeder's hash for each block number.
pub open spec fn after_revert_pass(s: StorageView, central: spec_fn(BlockNumber) -> Option<BlockHash>) -> StorageView
    decreases s.headers.len(),
{
    if s.headers.len() == 0 || s.headers.len() > u64::MAX {
        s
    } else {
        let last = BlockNumber((s.headers.len() - 1) as u64);
        if should_revert(s, last, central(last)) {
            after_revert_pass(after_revert(s, last), central)
        } else {
            s
        }
    }
}

/// After a whole revert check the feeder agrees with the store on the last
/// block that has a header, if any block has one. The headers that stay are
/// the first headers of the store as it was, and each header that left is
/// filed under its hash.
pub proof fn revert_pass_ends_in_agreement(s: StorageView, central: spec_fn(BlockNumber) -> Option<BlockHash>)
    requires
        s.headers.len() <= u64::MAX,
    ensures
        after_revert_pass(s, central).headers.len() <= s.headers.len(),
        after_revert_pass(s, central).headers == s.headers.take(after_revert_pass(s, central).headers.len() as int),
        after_revert_pass(s, central).headers.len() > 0 ==> central(
            BlockNumber((after_revert_pass(s, central).headers.len() - 1) as u64),
        ) == Some(after_revert_pass(s, central).headers.last().block_hash),
        forall|n: int|
            after_revert_pass(s, central).headers.len() <= n < s.headers.len() ==> after_revert_pass(
                s,
                central,
            ).ommer_header((#[trigger] s.headers[n]).block_hash) is Some,
    decreases s.headers.len(),
{
    if s.headers.len() == 0 {
        assert(s.headers.take(0) =~= s.headers);
    } else {
        let last = BlockNumber((s.headers.len() - 1) as u64);
        if should_revert(s, last, central(last)) {
            let next = after_revert(s, last);
            reverted_header_is_filed(s, last);
            revert_pass_ends_in_agreement(next, central);
            let end = after_revert_pass(s, central);
            assert(end == after_revert_pass(next, central));
            assert(end.headers =~= s.headers.take(end.headers.len() as int));
            assert forall|n: int| end.headers.len() <= n < s.headers.len() implies end.ommer_header(
                (#[trigger] s.headers[n]).block_hash,
            ) is Some by {
                if n == s.headers.len() - 1 {
                    lemma_pass_keeps_side_headers(next, central, s.headers[n].block_hash);
                } else {
                    assert(next.headers[n] == s.headers[n]);
                }
            }
        } else {
            assert(s.headers.take(s.headers.len() as int) =~= s.headers);
        }
    }
}

proof fn lemma_pass_keeps_side_headers(
    s: StorageView,
    central: spec_fn(BlockNumber) -> Option<BlockHash>,
    block_hash: BlockHash,
)
    requires
        s.ommer_headers.contains_key(block_hash),
    ensures
        after_revert_pass(s, central).ommer_headers.contains_key(block_hash),
    decreases s.headers.len(),
{
    if s.headers.len() == 0 || s.headers.len() > u64::MAX {
    } else {
        let last = BlockNumber((s.headers.len() - 1) as u64);
        if should_revert(s, last, central(last)) {
            lemma_pass_keeps_side_headers(after_revert(s, last), central, block_hash);
        }
    }
}

/// The store after a sequence of inputs depends on nothing but the store
/// before and the inputs: the same inputs, fed to the same store, leave the
/// same store.
pub proof fn same_inputs_same_store(s1: StorageView, s2: StorageView, inputs1: Seq<EngineInput>, inputs2: Seq<EngineInput>)
    requires
        s1 == s2,
        inputs1 == inputs2,
    ensures
        replay(s1, inputs1) == replay(s2, inputs2),
{
}

/// Stopping after some inputs and going on from the store as it stands then
/// comes to the same as feeding all inputs in one run.
pub proof fn replay_resumes(s: StorageView, before: Seq<EngineInput>, after: Seq<EngineInput>)
    ensures
        replay(s, before + after) == replay(replay(s, before), after),
    decreases after.len(),
{
    if after.len() == 0 {
        assert(before + after =~= before);
    } else {
        assert((before + after).drop_last() =~= before + after.drop_last());
        assert((before + after).last() == after.last());
        replay_resumes(s, before, after.drop_last());
    }
}

/// An event that arrives a second time, right after the first, changes
/// nothing.
pub proof fn redelivery_changes_nothing(s: StorageView, event: SyncEvent)
    ensures
        apply_event(apply_event(s, event), event) == apply_event(s, event),
{
    let once = apply_event(s, event);
    assert(apply_event(once, event) =~= once);
}

/// An event never moves a marker back: rows leave the tables only by a
/// revert.
pub proof fn events_only_advance_markers(s: StorageView, event: SyncEvent)
    ensures
        apply_event(s, event).header_marker() >= s.header_marker(),
        apply_event(s, event).body_marker() >= s.body_marker(),
        apply_event(s, event).state_marker() >= s.state_marker(),
{
}

/// A revert touches the last block alone: the rows of the blocks below `n`
/// stay as they are.
pub proof fn revert_keeps_earlier_blocks(s: StorageView, n: BlockNumber, m: BlockNumber)
    requires
        m.0 < n.0,
    ensures
        after_revert(s, n).header_at(m) == s.header_at(m),
        after_revert(s, n).body_at(m) == s.body_at(m),
        after_revert(s, n).state_diff_at(m) == s.state_diff_at(m),
{
}

/// Nothing ever leaves the side tables: what was filed under a hash stays
/// filed under it, or gives way to a later filing under the same hash.
pub proof fn side_tables_only_grow(s: StorageView, input: EngineInput, block_hash: BlockHash)
    ensures
        s.ommer_headers.contains_key(block_hash) ==> step(s, input).ommer_headers.contains_key(block_hash),
        s.ommer_bodies.contains_key(block_hash) ==> step(s, input).ommer_bodies.contains_key(block_hash),
        s.ommer_state_diffs.contains_key(block_hash) ==> step(s, input).ommer_state_diffs.contains_key(
            block_hash,
        ),
{
}

/// A state diff is appended only for a block whose stored header has the hash
/// that the diff came with.
pub proof fn state_diff_follows_its_header(
    s: StorageView,
    n: BlockNumber,
    block_hash: BlockHash,
    state_diff: StateDiff,
    deployed_contract_class_definitions: IndexMap<FeltKey, DeprecatedContractClass>,
)
    requires
        with_state_diff(s, n, block_hash, state_diff, deployed_contract_class_definitions).state_marker()
            > s.state_marker(),
    ensures
        s.header_at(n) matches Some(header) && header.block_hash == block_hash,
        with_state_diff(s, n, block_hash, state_diff, deployed_contract_class_definitions).state_marker() == n.0
            + 1,
{
}

/// One input that brings no state diff out of canonical order leaves the
/// stored state diffs in canonical order.
pub proof fn step_keeps_diffs_canonical(s: StorageView, input: EngineInput)
    requires
        diffs_canonical(s),
        input_canonical(input),
    ensures
        diffs_canonical(step(s, input)),
{
}

/// Where every state diff arrives in canonical order, every stored state diff
/// is in canonical order.
pub proof fn stored_diffs_stay_canonical(s: StorageView, inputs: Seq<EngineInput>)
    requires
        diffs_canonical(s),
        forall|i: int| 0 <= i < inputs.len() ==> input_canonical(#[trigger] inputs[i]),
    ensures
        diffs_canonical(replay(s, inputs)),
    decreases inputs.len(),
{
    if inputs.len() > 0 {
        stored_diffs_stay_canonical(s, inputs.drop_last());
        step_keeps_diffs_canonical(replay(s, inputs.drop_last()), inputs.last());
    }
}

} // verus!
