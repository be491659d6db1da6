//! The insertion-ordered maps of a state diff, as far as the engine uses them.
//!
//! The maps are `indexmap::IndexMap`s. What one holds is named by a function
//! that gives its entries in iteration order, and each method the engine calls
//! is stated over those entries. None of these statements is proved here.

use crate::state::ContractClass;
use crate::state::DeprecatedContractClass;
use indexmap::IndexMap;
use vstd::prelude::*;

verus! {

/// A felt as a map key: the high half first, then the low half. Tuples are
/// ordered half by half, so keys are ordered as the numbers they stand for.
pub type FeltKey = (u128, u128);

/// `indexmap::IndexMap`, taken as a type whose inside is not looked into.
#[verifier::external_type_specification]
#[verifier::external_body]
#[verifier::reject_recursive_types(K)]
#[verifier::reject_recursive_types(V)]
#[verifier::reject_recursive_types(S)]
pub struct ExIndexMap<K, V, S>(indexmap::IndexMap<K, V, S>);

/// The entries of a felt-to-felt map, in iteration order.
pub uninterp spec fn felt_map_entries(m: IndexMap<(u128, u128), (u128, u128)>) -> Seq<((u128, u128), (u128, u128))>;

/// The entries of a map of storage diffs, in iteration order, each contract's
/// own map given by its entries.
pub uninterp spec fn storage_diffs_entries(
    m: IndexMap<(u128, u128), IndexMap<(u128, u128), (u128, u128)>>,
) -> Seq<((u128, u128), Seq<((u128, u128), (u128, u128))>)>;

/// The entries of a map of declared classes, in iteration order.
pub uninterp spec fn declared_classes_entries(
    m: IndexMap<(u128, u128), ((u128, u128), ContractClass)>,
) -> Seq<((u128, u128), ((u128, u128), ContractClass))>;

/// The entries of a map of deprecated classes, in iteration order.
pub uninterp spec fn deprecated_classes_entries(
    m: IndexMap<(u128, u128), DeprecatedContractClass>,
) -> Seq<((u128, u128), DeprecatedContractClass)>;

/// The order of two keys: by the high half, then by the low half.
pub open spec fn key_below(a: FeltKey, b: FeltKey) -> bool {
    a.0 < b.0 || (a.0 == b.0 && a.1 < b.1)
}

/// Every key is below each key after it.
pub open spec fn keys_ascending<V>(entries: Seq<(FeltKey, V)>) -> bool {
    forall|i: int, j: int| 0 <= i < j < entries.len() ==> key_below(#[trigger] entries[i].0, #[trigger] entries[j].0)
}

/// No key occurs twice.
pub open spec fn keys_distinct<V>(entries: Seq<(FeltKey, V)>) -> bool {
    forall|i: int, j: int| 0 <= i < j < entries.len() ==> #[trigger] entries[i].0 != #[trigger] entries[j].0
}

/// Both hold the same entries, each as often as the other.
pub open spec fn same_entries<T>(a: Seq<T>, b: Seq<T>) -> bool {
    a.to_multiset() == b.to_multiset()
}

/// `IndexMap::sort_unstable_keys` on a felt-to-felt map: the entries stay and
/// come to stand in ascending order of their keys.
#[verifier::external_body]
pub(crate) fn sort_felt_map(m: &mut IndexMap<(u128, u128), (u128, u128)>)
    ensures
        same_entries(felt_map_entries(*final(m)), felt_map_entries(*old(m))),
        keys_ascending(felt_map_entries(*final(m))),
{
    m.sort_unstable_keys();
}

/// `IndexMap::sort_unstable_keys` on a map of storage diffs: the entries stay and
/// come to stand in ascending order of their keys.
#[verifier::external_body]
pub(crate) fn sort_storage_diffs(m: &mut IndexMap<(u128, u128), IndexMap<(u128, u128), (u128, u128)>>)
    ensures
        same_entries(storage_diffs_entries(*final(m)), storage_diffs_entries(*old(m))),
        keys_ascending(storage_diffs_entries(*final(m))),
{
    m.sort_unstable_keys();
}

/// `IndexMap::len` on a map of storage diffs: the number of its entries.
#[verifier::external_body]
pub(crate) fn storage_diffs_len(m: &IndexMap<(u128, u128), IndexMap<(u128, u128), (u128, u128)>>) -> (n: usize)
    ensures
        n == storage_diffs_entries(*m).len(),
{
    m.len()
}

/// `IndexMap::get_index_mut` on a map of storage diffs: the map of the contract
/// at `index`. What the caller leaves in it is what the entry holds afterwards;
/// the key and the other entries stay.
#[verifier::external_body]
pub(crate) fn storage_diffs_value_mut(
    m: &mut IndexMap<(u128, u128), IndexMap<(u128, u128), (u128, u128)>>,
    index: usize,
) -> (inner: &mut IndexMap<(u128, u128), (u128, u128)>)
    requires
        index < storage_diffs_entries(*old(m)).len(),
    ensures
        felt_map_entries(*inner) == storage_diffs_entries(*old(m))[index as int].1,
        storage_diffs_entries(*final(m)) == storage_diffs_entries(*old(m)).update(
            index as int,
            (storage_diffs_entries(*old(m))[index as int].0, felt_map_entries(*final(inner))),
        ),
{
    m.get_index_mut(index).unwrap().1
}

/// `IndexMap::sort_unstable_keys` on a map of declared classes: the entries stay
/// and come to stand in ascending order of their keys.
#[verifier::external_body]
pub(crate) fn sort_declared_classes(m: &mut IndexMap<(u128, u128), ((u128, u128), ContractClass)>)
    ensures
        same_entries(declared_classes_entries(*final(m)), declared_classes_entries(*old(m))),
        keys_ascending(declared_classes_entries(*final(m))),
{
    m.sort_unstable_keys();
}

/// `IndexMap::sort_unstable_keys` on a map of deprecated classes: the entries
/// stay and come to stand in ascending order of their keys.
#[verifier::external_body]
pub(crate) fn sort_deprecated_classes(m: &mut IndexMap<(u128, u128), DeprecatedContractClass>)
    ensures
        same_entries(deprecated_classes_entries(*final(m)), deprecated_classes_entries(*old(m))),
        keys_ascending(deprecated_classes_entries(*final(m))),
{
    m.sort_unstable_keys();
}

/// The class hash and the compiled class hash of an entry of declared classes.
pub open spec fn declared_hashes(entry: (FeltKey, (FeltKey, ContractClass))) -> (FeltKey, FeltKey) {
    (entry.0, entry.1.0)
}

/// The class hash of an entry of deprecated classes.
pub open spec fn deprecated_hash(entry: (FeltKey, DeprecatedContractClass)) -> FeltKey {
    entry.0
}

/// `IndexMap::iter` on a map of declared classes, each entry handed out as its
/// class hash with its compiled class hash: one pair per entry, in iteration
/// order. No class hash comes twice, as a map holds no key twice.
#[verifier::external_body]
pub(crate) fn declared_class_hashes(m: &IndexMap<(u128, u128), ((u128, u128), ContractClass)>) -> (pairs: Vec<
    ((u128, u128), (u128, u128)),
>)
    ensures
        pairs@ == declared_classes_entries(*m).map_values(
            |e: (FeltKey, (FeltKey, ContractClass))| declared_hashes(e),
        ),
        keys_distinct(pairs@),
{
    m.iter().map(|(class_hash, entry)| (*class_hash, entry.0)).collect()
}

/// `IndexMap::keys` on a map of deprecated classes: the class hashes, in
/// iteration order.
#[verifier::external_body]
pub(crate) fn deprecated_class_hashes(m: &IndexMap<(u128, u128), DeprecatedContractClass>) -> (hashes: Vec<
    (u128, u128),
>)
    ensures
        hashes@ == deprecated_classes_entries(*m).map_values(
            |e: (FeltKey, DeprecatedContractClass)| deprecated_hash(e),
        ),
{
    m.keys().copied().collect()
}

/// `IndexMap::values` on a felt-to-felt map: the values, in iteration order.
#[verifier::external_body]
pub(crate) fn felt_map_values(m: &IndexMap<(u128, u128), (u128, u128)>) -> (values: Vec<(u128, u128)>)
    ensures
        values@ == felt_map_entries(*m).map_values(|e: (FeltKey, FeltKey)| e.1),
{
    m.values().copied().collect()
}

/// `IndexMap::from_iter` on pairs of felts: where no key comes twice, the map
/// holds the pairs in the order given.
#[verifier::external_body]
pub(crate) fn felt_map_from_pairs(pairs: Vec<((u128, u128), (u128, u128))>) -> (m: IndexMap<
    (u128, u128),
    (u128, u128),
>)
    ensures
        keys_distinct(pairs@) ==> felt_map_entries(m) == pairs@,
{
    pairs.into_iter().collect()
}

} // verus!
