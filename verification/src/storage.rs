//! The store of the node: three tables that grow and shrink at their end, one
//! row per block, and three side tables, keyed by block hash, for what a revert
//! took out. A table's marker is the number of the next block it has no row for.
//!
//! Writes go through a transaction, which works on a store of its own: a
//! snapshot, or the store itself where its owner gives it up. Each operation
//! takes the transaction and hands it back, and only a commit hands back a
//! store.

use crate::block::BlockBody;
use crate::block::BlockHash;
use crate::block::BlockHeader;
use crate::block::BlockNumber;
use crate::index_map::deprecated_classes_entries;
use crate::index_map::deprecated_hash;
use crate::index_map::FeltKey;
use crate::state::ContractClass;
use crate::state::DeprecatedContractClass;
use crate::state::StateDiff;
use crate::state::ThinStateDiff;
use indexmap::IndexMap;
use std::sync::Arc;
use vstd::prelude::*;

verus! {

/// Why the store refused an operation.
#[derive(Clone, Debug, PartialEq, Eq)]
pub enum StorageError {
    /// The backend failed for the moment.
    InnerError { message: String },
    /// A row was appended under a number other than the table's marker.
    MarkerMismatch { expected: BlockNumber, found: BlockNumber },
    /// The tables contradict each other.
    DBInconsistency { msg: String },
    /// A row could not be encoded or decoded.
    SerdeError { message: String },
}

/// What the store keeps of a block's state diff.
pub struct StoredStateDiff {
    pub state_diff: StateDiff,
    pub deployed_contract_class_definitions: IndexMap<FeltKey, DeprecatedContractClass>,
}

/// What the side table keeps of a reverted state diff: the thin diff, with the
/// classes it declared in place of their hashes.
#[verifier::ext_equal]
pub struct OmmerStateDiff {
    pub deployed_contracts: IndexMap<FeltKey, FeltKey>,
    pub storage_diffs: IndexMap<FeltKey, IndexMap<FeltKey, FeltKey>>,
    pub declared_classes: IndexMap<FeltKey, (FeltKey, ContractClass)>,
    pub deprecated_declared_classes: Seq<FeltKey>,
    pub nonces: IndexMap<FeltKey, FeltKey>,
    pub replaced_classes: IndexMap<FeltKey, FeltKey>,
}

impl OmmerStateDiff {
    /// The row made of a thin diff and the classes it declared.
    pub open spec fn of_parts(
        thin_state_diff: ThinStateDiff,
        declared_classes: IndexMap<FeltKey, (FeltKey, ContractClass)>,
    ) -> OmmerStateDiff {
        OmmerStateDiff {
            deployed_contracts: thin_state_diff.deployed_contracts,
            storage_diffs: thin_state_diff.storage_diffs,
            declared_classes,
            deprecated_declared_classes: thin_state_diff.deprecated_declared_classes@,
            nonces: thin_state_diff.nonces,
            replaced_classes: thin_state_diff.replaced_classes,
        }
    }

    /// The row that a state diff leaves when it is reverted.
    pub open spec fn of_state_diff(diff: StateDiff) -> OmmerStateDiff {
        OmmerStateDiff {
            deployed_contracts: diff.deployed_contracts,
            storage_diffs: diff.storage_diffs,
            declared_classes: diff.declared_classes,
            deprecated_declared_classes: deprecated_classes_entries(diff.deprecated_declared_classes).map_values(
                |e: (FeltKey, DeprecatedContractClass)| deprecated_hash(e),
            ),
            nonces: diff.nonces,
            replaced_classes: diff.replaced_classes,
        }
    }
}

/// The store as a value: what each table holds.
#[verifier::ext_equal]
pub struct StorageView {
    /// The header of block `n` at index `n`.
    pub headers: Seq<BlockHeader>,
    /// The body of block `n` at index `n`.
    pub bodies: Seq<BlockBody>,
    /// The state diff of block `n` at index `n`.
    pub state_diffs: Seq<StoredStateDiff>,
    /// Reverted headers, by the hash of their block.
    pub ommer_headers: Map<BlockHash, BlockHeader>,
    /// Reverted bodies, by the hash of their block.
    pub ommer_bodies: Map<BlockHash, BlockBody>,
    /// Reverted state diffs, by the hash of their block.
    pub ommer_state_diffs: Map<BlockHash, OmmerStateDiff>,
}

impl StorageView {
    /// The store that holds nothing.
    pub open spec fn empty() -> StorageView {
        StorageView {
            headers: Seq::empty(),
            bodies: Seq::empty(),
            state_diffs: Seq::empty(),
            ommer_headers: Map::empty(),
            ommer_bodies: Map::empty(),
            ommer_state_diffs: Map::empty(),
        }
    }

    /// The number of the next block to append a header for.
    pub open spec fn header_marker(self) -> nat {
        self.headers.len()
    }

    /// The number of the next block to append a body for.
    pub open spec fn body_marker(self) -> nat {
        self.bodies.len()
    }

    /// The number of the next block to append a state diff for.
    pub open spec fn state_marker(self) -> nat {
        self.state_diffs.len()
    }

    /// The stored header of block `n`, if there is one.
    pub open spec fn header_at(self, n: BlockNumber) -> Option<BlockHeader> {
        if n.0 < self.headers.len() {
            Some(self.headers[n.0 as int])
        } else {
            None
        }
    }

    /// The reverted header with this block hash, if there is one.
    pub open spec fn ommer_header(self, block_hash: BlockHash) -> Option<BlockHeader> {
        if self.ommer_headers.contains_key(block_hash) {
            Some(self.ommer_headers[block_hash])
        } else {
            None
        }
    }

    /// The stored body of block `n`, if there is one.
    pub open spec fn body_at(self, n: BlockNumber) -> Option<BlockBody> {
        if n.0 < self.bodies.len() {
            Some(self.bodies[n.0 as int])
        } else {
            None
        }
    }

    /// The stored state diff of block `n`, if there is one.
    pub open spec fn state_diff_at(self, n: BlockNumber) -> Option<StoredStateDiff> {
        if n.0 < self.state_diffs.len() {
            Some(self.state_diffs[n.0 as int])
        } else {
            None
        }
    }

    /// The reverted body with this block hash, if there is one.
    pub open spec fn ommer_body(self, block_hash: BlockHash) -> Option<BlockBody> {
        if self.ommer_bodies.contains_key(block_hash) {
            Some(self.ommer_bodies[block_hash])
        } else {
            None
        }
    }

    /// The reverted state diff with this block hash, if there is one.
    pub open spec fn ommer_state_diff(self, block_hash: BlockHash) -> Option<OmmerStateDiff> {
        if self.ommer_state_diffs.contains_key(block_hash) {
            Some(self.ommer_state_diffs[block_hash])
        } else {
            None
        }
    }

    /// The store with one more header.
    pub open spec fn append_header(self, header: BlockHeader) -> StorageView {
        StorageView { headers: self.headers.push(header), ..self }
    }

    /// The store with one more body.
    pub open spec fn append_body(self, body: BlockBody) -> StorageView {
        StorageView { bodies: self.bodies.push(body), ..self }
    }

    /// The store with one more state diff.
    pub open spec fn append_state_diff(self, row: StoredStateDiff) -> StorageView {
        StorageView { state_diffs: self.state_diffs.push(row), ..self }
    }

    /// The header that a revert of block `n` takes out: the last one, where
    /// block `n` is the last to have one.
    pub open spec fn reverted_header(self, n: BlockNumber) -> Option<BlockHeader> {
        if self.headers.len() == n.0 + 1 {
            Some(self.headers.last())
        } else {
            None
        }
    }

    /// The store without the header of block `n`, where block `n` is the last to
    /// have one; else the store as it is.
    pub open spec fn revert_header(self, n: BlockNumber) -> StorageView {
        if self.headers.len() == n.0 + 1 {
            StorageView { headers: self.headers.drop_last(), ..self }
        } else {
            self
        }
    }

    /// The body that a revert of block `n` takes out: the last one, where block
    /// `n` is the last to have one.
    pub open spec fn reverted_body(self, n: BlockNumber) -> Option<BlockBody> {
        if self.bodies.len() == n.0 + 1 {
            Some(self.bodies.last())
        } else {
            None
        }
    }

    /// The store without the body of block `n`, where block `n` is the last to
    /// have one; else the store as it is.
    pub open spec fn revert_body(self, n: BlockNumber) -> StorageView {
        if self.bodies.len() == n.0 + 1 {
            StorageView { bodies: self.bodies.drop_last(), ..self }
        } else {
            self
        }
    }

    /// The state diff that a revert of block `n` takes out: the last one, where
    /// block `n` is the last to have one.
    pub open spec fn reverted_state_diff(self, n: BlockNumber) -> Option<StoredStateDiff> {
        if self.state_diffs.len() == n.0 + 1 {
            Some(self.state_diffs.last())
        } else {
            None
        }
    }

    /// The store without the state diff of block `n`, where block `n` is the
    /// last to have one; else the store as it is.
    pub open spec fn revert_state_diff(self, n: BlockNumber) -> StorageView {
        if self.state_diffs.len() == n.0 + 1 {
            StorageView { state_diffs: self.state_diffs.drop_last(), ..self }
        } else {
            self
        }
    }

    /// The store with this header filed under `block_hash`, in place of what
    /// was filed there.
    pub open spec fn insert_ommer_header(self, block_hash: BlockHash, header: BlockHeader) -> StorageView {
        StorageView { ommer_headers: self.ommer_headers.insert(block_hash, header), ..self }
    }

    /// The store with this body filed under `block_hash`, in place of what was
    /// filed there.
    pub open spec fn insert_ommer_body(self, block_hash: BlockHash, body: BlockBody) -> StorageView {
        StorageView { ommer_bodies: self.ommer_bodies.insert(block_hash, body), ..self }
    }

    /// The store with this state diff filed under `block_hash`, in place of what
    /// was filed there.
    pub open spec fn insert_ommer_state_diff(self, block_hash: BlockHash, row: OmmerStateDiff) -> StorageView {
        StorageView { ommer_state_diffs: self.ommer_state_diffs.insert(block_hash, row), ..self }
    }
}

/// The map that a list of insertions builds: each pair is inserted in turn, so
/// of two pairs with one key the later one counts.
pub open spec fn pairs_to_map<K, V>(pairs: Seq<(K, V)>) -> Map<K, V>
    decreases pairs.len(),
{
    if pairs.len() == 0 {
        Map::empty()
    } else {
        pairs_to_map(pairs.drop_last()).insert(pairs.last().0, pairs.last().1)
    }
}

proof fn lemma_pairs_push<K, V>(pairs: Seq<(K, V)>, key: K, value: V)
    ensures
        pairs_to_map(pairs.push((key, value))) == pairs_to_map(pairs).insert(key, value),
{
    assert(pairs.push((key, value)).drop_last() =~= pairs);
}

/// Pairs at and after `from` that do not have `key` do not matter for `key`.
proof fn lemma_pairs_skip<K, V>(pairs: Seq<(K, V)>, key: K, from: int)
    requires
        0 <= from <= pairs.len(),
        forall|j: int| from <= j < pairs.len() ==> (#[trigger] pairs[j]).0 != key,
    ensures
        pairs_to_map(pairs).contains_key(key) == pairs_to_map(pairs.take(from)).contains_key(key),
        pairs_to_map(pairs).contains_key(key) ==> pairs_to_map(pairs)[key] == pairs_to_map(pairs.take(from))[key],
    decreases pairs.len() - from,
{
    if from == pairs.len() {
        assert(pairs.take(from) =~= pairs);
    } else {
        let shorter = pairs.drop_last();
        assert(pairs.last().0 != key);
        assert(shorter.take(from) =~= pairs.take(from));
        lemma_pairs_skip(shorter, key, from);
    }
}

/// The last pair with `key` is what the map holds for it.
proof fn lemma_pairs_last<K, V>(pairs: Seq<(K, V)>, key: K, at: int)
    requires
        0 <= at < pairs.len(),
        pairs[at].0 == key,
        forall|j: int| at < j < pairs.len() ==> (#[trigger] pairs[j]).0 != key,
    ensures
        pairs_to_map(pairs).contains_key(key),
        pairs_to_map(pairs)[key] == pairs[at].1,
{
    lemma_pairs_skip(pairs, key, at + 1);
    let upto = pairs.take(at + 1);
    assert(upto.last() == pairs[at]);
}

/// Where no pair has `key`, the map has none for it.
proof fn lemma_pairs_none<K, V>(pairs: Seq<(K, V)>, key: K)
    requires
        forall|j: int| 0 <= j < pairs.len() ==> (#[trigger] pairs[j]).0 != key,
    ensures
        !pairs_to_map(pairs).contains_key(key),
{
    lemma_pairs_skip(pairs, key, 0);
    assert(pairs.take(0) =~= Seq::<(K, V)>::empty());
}

/// The place of the last pair filed under `block_hash`, if there is one.
fn last_with_hash<V>(table: &Vec<(BlockHash, V)>, block_hash: BlockHash) -> (r: Option<usize>)
    ensures
        match r {
            Some(i) => {
                &&& i < table.len()
                &&& table[i as int].0 == block_hash
                &&& forall|j: int| i < j < table.len() ==> (#[trigger] table[j]).0 != block_hash
            },
            None => forall|j: int| 0 <= j < table.len() ==> (#[trigger] table[j]).0 != block_hash,
        },
{
    let mut i: usize = table.len();
    while i > 0
        invariant
            i <= table.len(),
            forall|j: int| i <= j < table.len() ==> (#[trigger] table[j]).0 != block_hash,
        decreases i,
    {
        i = i - 1;
        if table[i].0 == block_hash {
            return Some(i);
        }
    }
    None
}

/// `Arc::clone`: one more pointer to the same value.
#[verifier::external_body]
fn share<T>(pointer: &Arc<T>) -> (r: Arc<T>)
    ensures
        r == *pointer,
{
    Arc::clone(pointer)
}

/// A row of the table of state diffs.
struct StateDiffRow {
    thin_state_diff: Arc<ThinStateDiff>,
    declared_classes: Arc<IndexMap<FeltKey, (FeltKey, ContractClass)>>,
    deprecated_declared_classes: Arc<IndexMap<FeltKey, DeprecatedContractClass>>,
    deployed_contract_class_definitions: Arc<IndexMap<FeltKey, DeprecatedContractClass>>,
}

impl StateDiffRow {
    /// The state diff that the row was made of.
    spec fn state_diff(self) -> StateDiff {
        StateDiff {
            deployed_contracts: self.thin_state_diff.deployed_contracts,
            storage_diffs: self.thin_state_diff.storage_diffs,
            declared_classes: *self.declared_classes,
            deprecated_declared_classes: *self.deprecated_declared_classes,
            nonces: self.thin_state_diff.nonces,
            replaced_classes: self.thin_state_diff.replaced_classes,
        }
    }

    spec fn view(self) -> StoredStateDiff {
        StoredStateDiff {
            state_diff: self.state_diff(),
            deployed_contract_class_definitions: *self.deployed_contract_class_definitions,
        }
    }

    /// The thin diff of a row is the thin form of the row's state diff.
    #[verifier::type_invariant]
    spec fn thin_matches(self) -> bool {
        self.thin_state_diff.is_thin_of(self.state_diff())
    }

    fn duplicate(&self) -> (r: StateDiffRow)
        ensures
            r == *self,
    {
        proof {
            use_type_invariant(self);
        }
        StateDiffRow {
            thin_state_diff: share(&self.thin_state_diff),
            declared_classes: share(&self.declared_classes),
            deprecated_declared_classes: share(&self.deprecated_declared_classes),
            deployed_contract_class_definitions: share(&self.deployed_contract_class_definitions),
        }
    }
}

/// A row of the side table of state diffs.
struct OmmerStateDiffRow {
    thin_state_diff: Arc<ThinStateDiff>,
    declared_classes: Arc<IndexMap<FeltKey, (FeltKey, ContractClass)>>,
}

impl OmmerStateDiffRow {
    spec fn view(self) -> OmmerStateDiff {
        OmmerStateDiff::of_parts(*self.thin_state_diff, *self.declared_classes)
    }
}

/// The store, held in memory.
pub struct Storage {
    headers: Vec<BlockHeader>,
    bodies: Vec<Arc<BlockBody>>,
    state_diffs: Vec<StateDiffRow>,
    ommer_headers: Vec<(BlockHash, BlockHeader)>,
    ommer_bodies: Vec<(BlockHash, Arc<BlockBody>)>,
    ommer_state_diffs: Vec<(BlockHash, OmmerStateDiffRow)>,
}

spec fn body_pair(pair: (BlockHash, Arc<BlockBody>)) -> (BlockHash, BlockBody) {
    (pair.0, *pair.1)
}

spec fn state_diff_pair(pair: (BlockHash, OmmerStateDiffRow)) -> (BlockHash, OmmerStateDiff) {
    (pair.0, pair.1.view())
}

impl View for Storage {
    type V = StorageView;

    closed spec fn view(&self) -> StorageView {
        StorageView {
            headers: self.headers@,
            bodies: self.bodies@.map_values(|body: Arc<BlockBody>| *body),
            state_diffs: self.state_diffs@.map_values(|row: StateDiffRow| row.view()),
            ommer_headers: pairs_to_map(self.ommer_headers@),
            ommer_bodies: pairs_to_map(self.ommer_bodies@.map_values(|pair| body_pair(pair))),
            ommer_state_diffs: pairs_to_map(self.ommer_state_diffs@.map_values(|pair| state_diff_pair(pair))),
        }
    }
}

impl Storage {
    /// A store that holds nothing.
    pub fn new() -> (r: Storage)
        ensures
            r@ == StorageView::empty(),
    {
        let r = Storage {
            headers: Vec::new(),
            bodies: Vec::new(),
            state_diffs: Vec::new(),
            ommer_headers: Vec::new(),
            ommer_bodies: Vec::new(),
            ommer_state_diffs: Vec::new(),
        };
        assert(r@ =~= StorageView::empty());
        r
    }

    /// The number of the next block to append a header for.
    pub fn get_header_marker(&self) -> (r: BlockNumber)
        ensures
            r.0 == self@.header_marker(),
    {
        BlockNumber(self.headers.len() as u64)
    }

    /// The number of the next block to append a body for.
    pub fn get_body_marker(&self) -> (r: BlockNumber)
        ensures
            r.0 == self@.body_marker(),
    {
        BlockNumber(self.bodies.len() as u64)
    }

    /// The number of the next block to append a state diff for.
    pub fn get_state_marker(&self) -> (r: BlockNumber)
        ensures
            r.0 == self@.state_marker(),
    {
        BlockNumber(self.state_diffs.len() as u64)
    }

    /// The stored header of a block, if the block has one.
    pub fn get_block_header(&self, block_number: BlockNumber) -> (r: Option<BlockHeader>)
        ensures
            r == self@.header_at(block_number),
    {
        if block_number.0 < self.headers.len() as u64 {
            Some(self.headers[block_number.0 as usize])
        } else {
            None
        }
    }

    /// The stored body of a block, if the block has one.
    pub fn get_body(&self, block_number: BlockNumber) -> (r: Option<Arc<BlockBody>>)
        ensures
            match r {
                Some(body) => self@.body_at(block_number) == Some(*body),
                None => self@.body_at(block_number) is None,
            },
    {
        if block_number.0 < self.bodies.len() as u64 {
            Some(share(&self.bodies[block_number.0 as usize]))
        } else {
            None
        }
    }

    /// The stored state diff of a block, in thin form, if the block has one.
    pub fn get_state_diff(&self, block_number: BlockNumber) -> (r: Option<Arc<ThinStateDiff>>)
        ensures
            match r {
                Some(thin) => self@.state_diff_at(block_number) matches Some(row) && thin.is_thin_of(row.state_diff),
                None => self@.state_diff_at(block_number) is None,
            },
    {
        if block_number.0 < self.state_diffs.len() as u64 {
            let row = &self.state_diffs[block_number.0 as usize];
            proof {
                use_type_invariant(row);
            }
            Some(share(&row.thin_state_diff))
        } else {
            None
        }
    }

    /// The reverted header with this block hash, if there is one.
    pub fn get_ommer_header(&self, block_hash: BlockHash) -> (r: Option<BlockHeader>)
        ensures
            r == self@.ommer_header(block_hash),
    {
        match last_with_hash(&self.ommer_headers, block_hash) {
            Some(i) => {
                proof {
                    lemma_pairs_last(self.ommer_headers@, block_hash, i as int);
                }
                Some(self.ommer_headers[i].1)
            },
            None => {
                proof {
                    lemma_pairs_none(self.ommer_headers@, block_hash);
                }
                None
            },
        }
    }

    /// The reverted body with this block hash, if there is one.
    pub fn get_ommer_body(&self, block_hash: BlockHash) -> (r: Option<Arc<BlockBody>>)
        ensures
            match r {
                Some(body) => self@.ommer_body(block_hash) == Some(*body),
                None => self@.ommer_body(block_hash) is None,
            },
    {
        let ghost pairs = self.ommer_bodies@.map_values(|pair| body_pair(pair));
        match last_with_hash(&self.ommer_bodies, block_hash) {
            Some(i) => {
                proof {
                    lemma_pairs_last(pairs, block_hash, i as int);
                }
                Some(share(&self.ommer_bodies[i].1))
            },
            None => {
                proof {
                    lemma_pairs_none(pairs, block_hash);
                }
                None
            },
        }
    }

    /// The reverted state diff with this block hash, in thin form, if there is
    /// one.
    pub fn get_ommer_state_diff(&self, block_hash: BlockHash) -> (r: Option<Arc<ThinStateDiff>>)
        ensures
            match r {
                Some(thin) => self@.ommer_state_diff(block_hash) matches Some(row) && row
                    == OmmerStateDiff::of_parts(*thin, row.declared_classes),
                None => self@.ommer_state_diff(block_hash) is None,
            },
    {
        let ghost pairs = self.ommer_state_diffs@.map_values(|pair| state_diff_pair(pair));
        match last_with_hash(&self.ommer_state_diffs, block_hash) {
            Some(i) => {
                proof {
                    lemma_pairs_last(pairs, block_hash, i as int);
                }
                Some(share(&self.ommer_state_diffs[i].1.thin_state_diff))
            },
            None => {
                proof {
                    lemma_pairs_none(pairs, block_hash);
                }
                None
            },
        }
    }

    /// A second store that holds what this one holds.
    pub fn snapshot(&self) -> (r: Storage)
        ensures
            r@ == self@,
    {
        let mut headers: Vec<BlockHeader> = Vec::new();
        let mut i: usize = 0;
        while i < self.headers.len()
            invariant
                i <= self.headers.len(),
                headers@ == self.headers@.take(i as int),
            decreases self.headers.len() - i,
        {
            headers.push(self.headers[i]);
            i = i + 1;
        }
        assert(headers@ == self.headers@) by {
            assert(self.headers@.take(i as int) =~= self.headers@);
        }
        let mut bodies: Vec<Arc<BlockBody>> = Vec::new();
        let mut i: usize = 0;
        while i < self.bodies.len()
            invariant
                i <= self.bodies.len(),
                bodies@ == self.bodies@.take(i as int),
            decreases self.bodies.len() - i,
        {
            bodies.push(share(&self.bodies[i]));
            i = i + 1;
        }
        assert(bodies@ == self.bodies@) by {
            assert(self.bodies@.take(i as int) =~= self.bodies@);
        }
        let mut state_diffs: Vec<StateDiffRow> = Vec::new();
        let mut i: usize = 0;
        while i < self.state_diffs.len()
            invariant
                i <= self.state_diffs.len(),
                state_diffs@ == self.state_diffs@.take(i as int),
            decreases self.state_diffs.len() - i,
        {
            state_diffs.push(self.state_diffs[i].duplicate());
            i = i + 1;
        }
        assert(state_diffs@ == self.state_diffs@) by {
            assert(self.state_diffs@.take(i as int) =~= self.state_diffs@);
        }
        let mut ommer_headers: Vec<(BlockHash, BlockHeader)> = Vec::new();
        let mut i: usize = 0;
        while i < self.ommer_headers.len()
            invariant
                i <= self.ommer_headers.len(),
                ommer_headers@ == self.ommer_headers@.take(i as int),
            decreases self.ommer_headers.len() - i,
        {
            ommer_headers.push((self.ommer_headers[i].0, self.ommer_headers[i].1));
            i = i + 1;
        }
        assert(ommer_headers@ == self.ommer_headers@) by {
            assert(self.ommer_headers@.take(i as int) =~= self.ommer_headers@);
        }
        let mut ommer_bodies: Vec<(BlockHash, Arc<BlockBody>)> = Vec::new();
        let mut i: usize = 0;
        while i < self.ommer_bodies.len()
            invariant
                i <= self.ommer_bodies.len(),
                ommer_bodies@ == self.ommer_bodies@.take(i as int),
            decreases self.ommer_bodies.len() - i,
        {
            ommer_bodies.push((self.ommer_bodies[i].0, share(&self.ommer_bodies[i].1)));
            i = i + 1;
        }
        assert(ommer_bodies@ == self.ommer_bodies@) by {
            assert(self.ommer_bodies@.take(i as int) =~= self.ommer_bodies@);
        }
        let mut ommer_state_diffs: Vec<(BlockHash, OmmerStateDiffRow)> = Vec::new();
        let mut i: usize = 0;
        while i < self.ommer_state_diffs.len()
            invariant
                i <= self.ommer_state_diffs.len(),
                ommer_state_diffs@ == self.ommer_state_diffs@.take(i as int),
            decreases self.ommer_state_diffs.len() - i,
        {
            let row = OmmerStateDiffRow {
                thin_state_diff: share(&self.ommer_state_diffs[i].1.thin_state_diff),
                declared_classes: share(&self.ommer_state_diffs[i].1.declared_classes),
            };
            ommer_state_diffs.push((self.ommer_state_diffs[i].0, row));
            i = i + 1;
        }
        assert(ommer_state_diffs@ == self.ommer_state_diffs@) by {
            assert(self.ommer_state_diffs@.take(i as int) =~= self.ommer_state_diffs@);
        }
        Storage { headers, bodies, state_diffs, ommer_headers, ommer_bodies, ommer_state_diffs }
    }

    /// Opens a write transaction on a snapshot of the store. The store itself
    /// stays as it is, whatever becomes of the transaction.
    pub fn begin_rw_txn(&self) -> (txn: StorageTxn)
        ensures
            txn@ == self@,
    {
        StorageTxn { working: self.snapshot() }
    }

    /// Opens a write transaction on the store itself, without a snapshot. The
    /// store is given up: only the transaction's commit hands one back.
    pub fn into_rw_txn(self) -> (txn: StorageTxn)
        ensures
            txn@ == self@,
    {
        StorageTxn { working: self }
    }
}

/// A write transaction: a store of its own with the writes made so far. Each
/// operation takes the transaction and hands it back, so that none can follow
/// a failure or a commit. A transaction that was opened on a snapshot leaves no
/// trace in the store it was opened on: what it wrote is in the store that its
/// commit hands back, and nowhere if it is dropped.
pub struct StorageTxn {
    working: Storage,
}

impl View for StorageTxn {
    type V = StorageView;

    closed spec fn view(&self) -> StorageView {
        self.working@
    }
}

impl StorageTxn {
    /// Appends the header of block `block_number`, which must be the block the
    /// header marker stands at.
    pub fn append_header(self, block_number: BlockNumber, block_header: &BlockHeader) -> (r: Result<
        StorageTxn,
        StorageError,
    >)
        ensures
            match r {
                Ok(txn) => block_number.0 == self@.header_marker() && txn@ == self@.append_header(*block_header),
                Err(e) => block_number.0 != self@.header_marker() && e == (StorageError::MarkerMismatch {
                    expected: BlockNumber(self@.header_marker() as u64),
                    found: block_number,
                }),
            },
    {
        let marker = self.working.get_header_marker();
        if marker.0 != block_number.0 {
            return Err(StorageError::MarkerMismatch { expected: marker, found: block_number });
        }
        let mut working = self.working;
        working.headers.push(*block_header);
        let txn = StorageTxn { working };
        assert(txn@ =~= self@.append_header(*block_header));
        Ok(txn)
    }

    /// Appends the body of block `block_number`, which must be the block the
    /// body marker stands at.
    pub fn append_body(self, block_number: BlockNumber, block_body: BlockBody) -> (r: Result<
        StorageTxn,
        StorageError,
    >)
        ensures
            match r {
                Ok(txn) => block_number.0 == self@.body_marker() && txn@ == self@.append_body(block_body),
                Err(e) => block_number.0 != self@.body_marker() && e == (StorageError::MarkerMismatch {
                    expected: BlockNumber(self@.body_marker() as u64),
                    found: block_number,
                }),
            },
    {
        let marker = self.working.get_body_marker();
        if marker.0 != block_number.0 {
            return Err(StorageError::MarkerMismatch { expected: marker, found: block_number });
        }
        let mut working = self.working;
        working.bodies.push(Arc::new(block_body));
        let txn = StorageTxn { working };
        assert(txn@ =~= self@.append_body(block_body));
        Ok(txn)
    }

    /// Appends the state diff of block `block_number`, which must be the block
    /// the state marker stands at, with the definitions of the classes that its
    /// deployed contracts use and that it does not declare.
    pub fn append_state_diff(
        self,
        block_number: BlockNumber,
        state_diff: StateDiff,
        deployed_contract_class_definitions: IndexMap<FeltKey, DeprecatedContractClass>,
    ) -> (r: Result<StorageTxn, StorageError>)
        ensures
            match r {
                Ok(txn) => block_number.0 == self@.state_marker() && txn@ == self@.append_state_diff(
                    StoredStateDiff { state_diff, deployed_contract_class_definitions },
                ),
                Err(e) => block_number.0 != self@.state_marker() && e == (StorageError::MarkerMismatch {
                    expected: BlockNumber(self@.state_marker() as u64),
                    found: block_number,
                }),
            },
    {
        let marker = self.working.get_state_marker();
        if marker.0 != block_number.0 {
            return Err(StorageError::MarkerMismatch { expected: marker, found: block_number });
        }
        let (thin_state_diff, declared_classes, deprecated_declared_classes) = ThinStateDiff::from_state_diff(
            state_diff,
        );
        let row = StateDiffRow {
            thin_state_diff: Arc::new(thin_state_diff),
            declared_classes: Arc::new(declared_classes),
            deprecated_declared_classes: Arc::new(deprecated_declared_classes),
            deployed_contract_class_definitions: Arc::new(deployed_contract_class_definitions),
        };
        assert(row.view() == (StoredStateDiff { state_diff, deployed_contract_class_definitions }));
        let mut working = self.working;
        working.state_diffs.push(row);
        let txn = StorageTxn { working };
        assert(txn@ =~= self@.append_state_diff(
            StoredStateDiff { state_diff, deployed_contract_class_definitions },
        ));
        Ok(txn)
    }

    /// Takes out the header of block `block_number` if it is the last header;
    /// else does nothing.
    pub fn revert_header(self, block_number: BlockNumber) -> (r: (StorageTxn, Option<BlockHeader>))
        ensures
            r.0@ == self@.revert_header(block_number),
            r.1 == self@.reverted_header(block_number),
    {
        let len = self.working.headers.len();
        if len == 0 || (len - 1) as u64 != block_number.0 {
            return (self, None);
        }
        let mut working = self.working;
        let header = working.headers.pop();
        let txn = StorageTxn { working };
        assert(txn@ =~= self@.revert_header(block_number));
        (txn, header)
    }

    /// Takes out the body of block `block_number` if it is the last body; else
    /// does nothing.
    pub fn revert_body(self, block_number: BlockNumber) -> (r: (StorageTxn, Option<Arc<BlockBody>>))
        ensures
            r.0@ == self@.revert_body(block_number),
            match r.1 {
                Some(body) => self@.reverted_body(block_number) == Some(*body),
                None => self@.reverted_body(block_number) is None,
            },
    {
        let len = self.working.bodies.len();
        if len == 0 || (len - 1) as u64 != block_number.0 {
            return (self, None);
        }
        let mut working = self.working;
        let body = working.bodies.pop();
        let txn = StorageTxn { working };
        assert(txn@ =~= self@.revert_body(block_number));
        (txn, body)
    }

    /// Takes out the state diff of block `block_number` if it is the last state
    /// diff, and hands it back in thin form, with its declared classes and its
    /// deprecated declared classes; else does nothing.
    pub fn revert_state_diff(self, block_number: BlockNumber) -> (r: (
        StorageTxn,
        Option<
            (
                Arc<ThinStateDiff>,
                Arc<IndexMap<FeltKey, (FeltKey, ContractClass)>>,
                Arc<IndexMap<FeltKey, DeprecatedContractClass>>,
            ),
        >,
    ))
        ensures
            r.0@ == self@.revert_state_diff(block_number),
            match r.1 {
                Some(parts) => {
                    &&& self@.reverted_state_diff(block_number) matches Some(row)
                    &&& parts.0.is_thin_of(row.state_diff)
                    &&& *parts.1 == row.state_diff.declared_classes
                    &&& *parts.2 == row.state_diff.deprecated_declared_classes
                },
                None => self@.reverted_state_diff(block_number) is None,
            },
    {
        let len = self.working.state_diffs.len();
        if len == 0 || (len - 1) as u64 != block_number.0 {
            return (self, None);
        }
        let mut working = self.working;
        let row = working.state_diffs.pop().unwrap();
        proof {
            use_type_invariant(&row);
        }
        let txn = StorageTxn { working };
        assert(txn@ =~= self@.revert_state_diff(block_number));
        (txn, Some((row.thin_state_diff, row.declared_classes, row.deprecated_declared_classes)))
    }

    /// Files a reverted header under the hash of its block.
    pub fn insert_ommer_header(self, block_hash: BlockHash, header: &BlockHeader) -> (r: StorageTxn)
        ensures
            r@ == self@.insert_ommer_header(block_hash, *header),
    {
        let mut working = self.working;
        proof {
            lemma_pairs_push(working.ommer_headers@, block_hash, *header);
        }
        working.ommer_headers.push((block_hash, *header));
        let txn = StorageTxn { working };
        assert(txn@ =~= self@.insert_ommer_header(block_hash, *header));
        txn
    }

    /// Files a reverted body under the hash of its block.
    pub fn insert_ommer_body(self, block_hash: BlockHash, body: Arc<BlockBody>) -> (r: StorageTxn)
        ensures
            r@ == self@.insert_ommer_body(block_hash, *body),
    {
        let mut working = self.working;
        let ghost before = working.ommer_bodies@.map_values(|pair| body_pair(pair));
        proof {
            lemma_pairs_push(before, block_hash, body_pair((block_hash, body)).1);
        }
        working.ommer_bodies.push((block_hash, body));
        assert(working.ommer_bodies@.map_values(|pair| body_pair(pair)) =~= before.push((block_hash, *body)));
        let txn = StorageTxn { working };
        assert(txn@ =~= self@.insert_ommer_body(block_hash, *body));
        txn
    }

    /// Files a reverted state diff, in thin form and with the classes it
    /// declared, under the hash of its block.
    pub fn insert_ommer_state_diff(
        self,
        block_hash: BlockHash,
        thin_state_diff: Arc<ThinStateDiff>,
        declared_classes: Arc<IndexMap<FeltKey, (FeltKey, ContractClass)>>,
    ) -> (r: StorageTxn)
        ensures
            r@ == self@.insert_ommer_state_diff(
                block_hash,
                OmmerStateDiff::of_parts(*thin_state_diff, *declared_classes),
            ),
    {
        let mut working = self.working;
        let ghost before = working.ommer_state_diffs@.map_values(|pair| state_diff_pair(pair));
        let row = OmmerStateDiffRow { thin_state_diff, declared_classes };
        let ghost row_view = row.view();
        proof {
            lemma_pairs_push(before, block_hash, row_view);
        }
        working.ommer_state_diffs.push((block_hash, row));
        assert(working.ommer_state_diffs@.map_values(|pair| state_diff_pair(pair)) =~= before.push(
            (block_hash, row_view),
        ));
        let txn = StorageTxn { working };
        assert(txn@ =~= self@.insert_ommer_state_diff(block_hash, row_view));
        txn
    }

    /// Ends the transaction: the store as the transaction leaves it.
    pub fn commit(self) -> (r: Storage)
        ensures
            r@ == self@,
    {
        self.working
    }
}

} // verus!
