//! State diffs and their canonical order.

use crate::index_map::declared_class_hashes;
use crate::index_map::declared_classes_entries;
use crate::index_map::declared_hashes;
use crate::index_map::deprecated_class_hashes;
use crate::index_map::deprecated_classes_entries;
use crate::index_map::deprecated_hash;
use crate::index_map::felt_map_entries;
use crate::index_map::felt_map_from_pairs;
use crate::index_map::felt_map_values;
use crate::index_map::FeltKey;
use crate::index_map::key_below;
use crate::index_map::keys_ascending;
use crate::index_map::same_entries;
use crate::index_map::sort_declared_classes;
use crate::index_map::sort_deprecated_classes;
use crate::index_map::sort_felt_map;
use crate::index_map::sort_storage_diffs;
use crate::index_map::storage_diffs_entries;
use crate::index_map::storage_diffs_len;
use crate::index_map::storage_diffs_value_mut;
use indexmap::IndexMap;
use vstd::prelude::*;

verus! {

/// The definition of a contract class, as the feeder encoded it.
#[derive(Clone, Debug, PartialEq, Eq)]
pub struct ContractClass {
    pub definition: Vec<u8>,
}

/// The definition of a contract class of the kind that preceded compiled class
/// hashes, as the feeder encoded it.
#[derive(Clone, Debug, PartialEq, Eq)]
pub struct DeprecatedContractClass {
    pub definition: Vec<u8>,
}

/// What a block changed in the state: six maps, keyed by contract address or by
/// class hash.
#[derive(Debug, PartialEq, Eq)]
pub struct StateDiff {
    pub deployed_contracts: IndexMap<FeltKey, FeltKey>,
    pub storage_diffs: IndexMap<FeltKey, IndexMap<FeltKey, FeltKey>>,
    pub declared_classes: IndexMap<FeltKey, (FeltKey, ContractClass)>,
    pub deprecated_declared_classes: IndexMap<FeltKey, DeprecatedContractClass>,
    pub nonces: IndexMap<FeltKey, FeltKey>,
    pub replaced_classes: IndexMap<FeltKey, FeltKey>,
}

/// A state diff without its class definitions: of a declared class its compiled
/// class hash only, of a deprecated class its hash only.
#[derive(Debug, PartialEq, Eq)]
pub struct ThinStateDiff {
    pub deployed_contracts: IndexMap<FeltKey, FeltKey>,
    pub storage_diffs: IndexMap<FeltKey, IndexMap<FeltKey, FeltKey>>,
    pub declared_classes: IndexMap<FeltKey, FeltKey>,
    pub deprecated_declared_classes: Vec<FeltKey>,
    pub nonces: IndexMap<FeltKey, FeltKey>,
    pub replaced_classes: IndexMap<FeltKey, FeltKey>,
}

impl ThinStateDiff {
    /// `self` is `diff` without its class definitions: four maps are those of
    /// `diff`; the declared classes are those of `diff`, in the same order, each
    /// with its compiled class hash; the deprecated classes are the class hashes
    /// of those of `diff`, in the same order.
    pub open spec fn is_thin_of(self, diff: StateDiff) -> bool {
        &&& self.deployed_contracts == diff.deployed_contracts
        &&& self.storage_diffs == diff.storage_diffs
        &&& felt_map_entries(self.declared_classes) == declared_classes_entries(diff.declared_classes).map_values(
            |e: (FeltKey, (FeltKey, ContractClass))| declared_hashes(e),
        )
        &&& self.deprecated_declared_classes@ == deprecated_classes_entries(
            diff.deprecated_declared_classes,
        ).map_values(|e: (FeltKey, DeprecatedContractClass)| deprecated_hash(e))
        &&& self.nonces == diff.nonces
        &&& self.replaced_classes == diff.replaced_classes
    }

    /// Every map of the thin diff, and the map of every contract's storage, is
    /// in ascending order of its keys.
    pub open spec fn is_canonical(self) -> bool {
        &&& keys_ascending(felt_map_entries(self.deployed_contracts))
        &&& keys_ascending(storage_diffs_entries(self.storage_diffs))
        &&& inner_maps_ascending(storage_diffs_entries(self.storage_diffs))
        &&& keys_ascending(felt_map_entries(self.declared_classes))
        &&& forall|i: int, j: int|
            0 <= i < j < self.deprecated_declared_classes@.len() ==> key_below(
                #[trigger] self.deprecated_declared_classes@[i],
                #[trigger] self.deprecated_declared_classes@[j],
            )
        &&& keys_ascending(felt_map_entries(self.nonces))
        &&& keys_ascending(felt_map_entries(self.replaced_classes))
    }

    /// Parts a state diff into its thin form, its declared classes and its
    /// deprecated declared classes. The two maps of classes are handed back as
    /// they came.
    pub fn from_state_diff(diff: StateDiff) -> (r: (
        ThinStateDiff,
        IndexMap<FeltKey, (FeltKey, ContractClass)>,
        IndexMap<FeltKey, DeprecatedContractClass>,
    ))
        ensures
            r.0.is_thin_of(diff),
            r.1 == diff.declared_classes,
            r.2 == diff.deprecated_declared_classes,
    {
        let declared = declared_class_hashes(&diff.declared_classes);
        let deprecated = deprecated_class_hashes(&diff.deprecated_declared_classes);
        let thin = ThinStateDiff {
            deployed_contracts: diff.deployed_contracts,
            storage_diffs: diff.storage_diffs,
            declared_classes: felt_map_from_pairs(declared),
            deprecated_declared_classes: deprecated,
            nonces: diff.nonces,
            replaced_classes: diff.replaced_classes,
        };
        (thin, diff.declared_classes, diff.deprecated_declared_classes)
    }
}

/// The thin form of a canonical state diff is canonical.
pub proof fn thin_of_canonical_is_canonical(thin: ThinStateDiff, diff: StateDiff)
    requires
        thin.is_thin_of(diff),
        diff.is_canonical(),
    ensures
        thin.is_canonical(),
{
    let full = declared_classes_entries(diff.declared_classes);
    let cut = felt_map_entries(thin.declared_classes);
    assert forall|i: int, j: int| 0 <= i < j < cut.len() implies key_below(
        #[trigger] cut[i].0,
        #[trigger] cut[j].0,
    ) by {
        assert(cut[i].0 == full[i].0 && cut[j].0 == full[j].0);
    }
    let old = deprecated_classes_entries(diff.deprecated_declared_classes);
    let hashes = thin.deprecated_declared_classes@;
    assert forall|i: int, j: int| 0 <= i < j < hashes.len() implies key_below(
        #[trigger] hashes[i],
        #[trigger] hashes[j],
    ) by {
        assert(hashes[i] == old[i].0 && hashes[j] == old[j].0);
    }
}

/// The maps of one contract's storage: each in ascending order of its keys.
pub open spec fn inner_maps_ascending(rows: Seq<(FeltKey, Seq<(FeltKey, FeltKey)>)>) -> bool {
    forall|i: int| 0 <= i < rows.len() ==> keys_ascending(#[trigger] rows[i].1)
}

/// `after` has the keys of `before` in the same places, and under each key the
/// entries that `before` has there, in ascending order.
pub open spec fn inner_maps_sorted_from(
    before: Seq<(FeltKey, Seq<(FeltKey, FeltKey)>)>,
    after: Seq<(FeltKey, Seq<(FeltKey, FeltKey)>)>,
) -> bool {
    &&& after.len() == before.len()
    &&& forall|i: int|
        0 <= i < after.len() ==> {
            &&& (#[trigger] after[i]).0 == before[i].0
            &&& same_entries(after[i].1, before[i].1)
            &&& keys_ascending(after[i].1)
        }
}

impl StateDiff {
    /// Every map of the diff, and the map of every contract's storage, is in
    /// ascending order of its keys.
    pub open spec fn is_canonical(self) -> bool {
        &&& keys_ascending(felt_map_entries(self.deployed_contracts))
        &&& keys_ascending(storage_diffs_entries(self.storage_diffs))
        &&& inner_maps_ascending(storage_diffs_entries(self.storage_diffs))
        &&& keys_ascending(declared_classes_entries(self.declared_classes))
        &&& keys_ascending(deprecated_classes_entries(self.deprecated_declared_classes))
        &&& keys_ascending(felt_map_entries(self.nonces))
        &&& keys_ascending(felt_map_entries(self.replaced_classes))
    }

    /// Each map of `self` holds the entries of the same map of `other`; the
    /// order may differ, also within a contract's storage.
    pub open spec fn holds_what(self, other: StateDiff) -> bool {
        &&& same_entries(felt_map_entries(self.deployed_contracts), felt_map_entries(other.deployed_contracts))
        &&& exists|mid: Seq<(FeltKey, Seq<(FeltKey, FeltKey)>)>|
            {
                &&& same_entries(mid, storage_diffs_entries(other.storage_diffs))
                &&& #[trigger] rows_match(mid, storage_diffs_entries(self.storage_diffs))
            }
        &&& same_entries(declared_classes_entries(self.declared_classes), declared_classes_entries(other.declared_classes))
        &&& same_entries(
            deprecated_classes_entries(self.deprecated_declared_classes),
            deprecated_classes_entries(other.deprecated_declared_classes),
        )
        &&& same_entries(felt_map_entries(self.nonces), felt_map_entries(other.nonces))
        &&& same_entries(felt_map_entries(self.replaced_classes), felt_map_entries(other.replaced_classes))
    }
}

/// Whether one of the class hashes is `class_hash`.
fn has_hash(hashes: &Vec<FeltKey>, class_hash: FeltKey) -> (r: bool)
    ensures
        r == hashes@.contains(class_hash),
{
    let mut i: usize = 0;
    while i < hashes.len()
        invariant
            i <= hashes.len(),
            forall|j: int| 0 <= j < i ==> hashes@[j] != class_hash,
        decreases hashes.len() - i,
    {
        if hashes[i].0 == class_hash.0 && hashes[i].1 == class_hash.1 {
            return true;
        }
        i = i + 1;
    }
    false
}

/// Whether one of the pairs has `class_hash` in the first place.
fn has_declared(pairs: &Vec<(FeltKey, FeltKey)>, class_hash: FeltKey) -> (r: bool)
    ensures
        r == exists|j: int| 0 <= j < pairs.len() && (#[trigger] pairs@[j]).0 == class_hash,
{
    let mut i: usize = 0;
    while i < pairs.len()
        invariant
            i <= pairs.len(),
            forall|j: int| 0 <= j < i ==> (#[trigger] pairs@[j]).0 != class_hash,
        decreases pairs.len() - i,
    {
        if pairs[i].0.0 == class_hash.0 && pairs[i].0.1 == class_hash.1 {
            return true;
        }
        i = i + 1;
    }
    false
}

impl StateDiff {
    /// The diff declares a class with this hash, as a class or as a deprecated
    /// class.
    pub open spec fn declares(self, class_hash: FeltKey) -> bool {
        ||| exists|j: int|
            0 <= j < declared_classes_entries(self.declared_classes).len() && (#[trigger] declared_classes_entries(
                self.declared_classes,
            )[j]).0 == class_hash
        ||| exists|j: int|
            0 <= j < deprecated_classes_entries(self.deprecated_declared_classes).len()
                && (#[trigger] deprecated_classes_entries(self.deprecated_declared_classes)[j]).0 == class_hash
    }

    /// Those of the class hashes that the diff does not declare, in the order
    /// given.
    pub open spec fn undeclared_among(self, class_hashes: Seq<FeltKey>) -> Seq<FeltKey> {
        class_hashes.filter(|class_hash: FeltKey| !self.declares(class_hash))
    }

    /// The class hashes of the deployed contracts, one for each contract, in
    /// the order of the contracts.
    pub open spec fn deployed_class_hashes(self) -> Seq<FeltKey> {
        felt_map_entries(self.deployed_contracts).map_values(|e: (FeltKey, FeltKey)| e.1)
    }

    /// The classes whose definitions the feeder has to be asked for: for each
    /// deployed contract, in the order of the contracts, its class hash, unless
    /// the diff declares that class.
    pub fn undeclared_deployed_classes(&self) -> (r: Vec<FeltKey>)
        ensures
            r@ == self.undeclared_among(self.deployed_class_hashes()),
    {
        let deployed = felt_map_values(&self.deployed_contracts);
        let declared = declared_class_hashes(&self.declared_classes);
        let deprecated = deprecated_class_hashes(&self.deprecated_declared_classes);
        let mut out: Vec<FeltKey> = Vec::new();
        let mut i: usize = 0;
        proof {
            reveal(Seq::filter);
            assert(deployed@.take(0) =~= Seq::<FeltKey>::empty());
        }
        while i < deployed.len()
            invariant
                i <= deployed.len(),
                deployed@ == self.deployed_class_hashes(),
                declared@ == declared_classes_entries(self.declared_classes).map_values(
                    |e: (FeltKey, (FeltKey, ContractClass))| declared_hashes(e),
                ),
                deprecated@ == deprecated_classes_entries(self.deprecated_declared_classes).map_values(
                    |e: (FeltKey, DeprecatedContractClass)| deprecated_hash(e),
                ),
                out@ == self.undeclared_among(deployed@.take(i as int)),
            decreases deployed.len() - i,
        {
            let class_hash = deployed[i];
            let known = has_declared(&declared, class_hash) || has_hash(&deprecated, class_hash);
            proof {
                let upto = deployed@.take(i as int + 1);
                assert(upto.drop_last() =~= deployed@.take(i as int));
                assert(upto.last() == class_hash);
                reveal(Seq::filter);
                let full = declared_classes_entries(self.declared_classes);
                let old = deprecated_classes_entries(self.deprecated_declared_classes);
                if known {
                    if exists|j: int| 0 <= j < declared.len() && (#[trigger] declared@[j]).0 == class_hash {
                        let j = choose|j: int| 0 <= j < declared.len() && (#[trigger] declared@[j]).0 == class_hash;
                        assert(full[j].0 == class_hash);
                    } else {
                        let j = choose|j: int| 0 <= j < deprecated.len() && deprecated@[j] == class_hash;
                        assert(old[j].0 == class_hash);
                    }
                    assert(self.declares(class_hash));
                } else {
                    assert forall|j: int| 0 <= j < full.len() implies (#[trigger] full[j]).0 != class_hash by {
                        assert(declared@[j].0 == full[j].0);
                    }
                    assert forall|j: int| 0 <= j < old.len() implies (#[trigger] old[j]).0 != class_hash by {
                        assert(deprecated@[j] == old[j].0);
                    }
                    assert(!self.declares(class_hash));
                }
            }
            if !known {
                out.push(class_hash);
            }
            i = i + 1;
        }
        assert(deployed@.take(i as int) =~= deployed@);
        out
    }
}

/// `b` has the keys of `a` in the same places, and under each key the entries
/// that `a` has there.
pub open spec fn rows_match(
    a: Seq<(FeltKey, Seq<(FeltKey, FeltKey)>)>,
    b: Seq<(FeltKey, Seq<(FeltKey, FeltKey)>)>,
) -> bool {
    &&& a.len() == b.len()
    &&& forall|i: int| 0 <= i < a.len() ==> (#[trigger] a[i]).0 == b[i].0 && same_entries(a[i].1, b[i].1)
}

/// Brings a state diff into canonical order: every map, and the map of every
/// contract's storage, sorted by key. No entry is added or lost.
pub fn sort_state_diff(diff: &mut StateDiff)
    ensures
        final(diff).is_canonical(),
        final(diff).holds_what(*old(diff)),
{
    sort_declared_classes(&mut diff.declared_classes);
    sort_deprecated_classes(&mut diff.deprecated_declared_classes);
    sort_felt_map(&mut diff.deployed_contracts);
    sort_felt_map(&mut diff.nonces);
    sort_felt_map(&mut diff.replaced_classes);
    sort_storage_diffs(&mut diff.storage_diffs);
    let ghost sorted = *diff;
    let ghost mid = storage_diffs_entries(diff.storage_diffs);
    let n = storage_diffs_len(&diff.storage_diffs);
    let mut i: usize = 0;
    while i < n
        invariant
            0 <= i <= n,
            n == mid.len(),
            storage_diffs_entries(diff.storage_diffs).len() == n,
            forall|j: int| 0 <= j < n ==> (#[trigger] storage_diffs_entries(diff.storage_diffs)[j]).0 == mid[j].0,
            forall|j: int| 0 <= j < n ==> same_entries((#[trigger] storage_diffs_entries(diff.storage_diffs)[j]).1, mid[j].1),
            forall|j: int| 0 <= j < i ==> keys_ascending((#[trigger] storage_diffs_entries(diff.storage_diffs)[j]).1),
            keys_ascending(mid),
            diff.deployed_contracts == sorted.deployed_contracts,
            diff.declared_classes == sorted.declared_classes,
            diff.deprecated_declared_classes == sorted.deprecated_declared_classes,
            diff.nonces == sorted.nonces,
            diff.replaced_classes == sorted.replaced_classes,
        decreases n - i,
    {
        let inner = storage_diffs_value_mut(&mut diff.storage_diffs, i);
        sort_felt_map(inner);
        i = i + 1;
    }
    proof {
        let after = storage_diffs_entries(diff.storage_diffs);
        assert(rows_match(mid, after));
        assert(keys_ascending(after)) by {
            assert forall|a: int, b: int| 0 <= a < b < after.len() implies key_below(
                #[trigger] after[a].0,
                #[trigger] after[b].0,
            ) by {
                assert(after[a].0 == mid[a].0 && after[b].0 == mid[b].0);
            }
        }
    }
}

} // verus!
