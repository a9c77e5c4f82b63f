//! Maps after a series of updates: the tables of the node (its children, its
//! routes, its provisioned functions) each change one key at a time.
use vstd::prelude::*;

verus! {

/// `m` after the updates `entries`, applied in order, each mapping its key to
/// its value.
pub open spec fn after_updates<K, V>(m: Map<K, V>, entries: Seq<(K, V)>) -> Map<K, V>
    decreases entries.len(),
{
    if entries.len() == 0 {
        m
    } else {
        after_updates(m, entries.drop_last()).insert(entries.last().0, entries.last().1)
    }
}

/// The value `m` holds for `k`, if any.
pub open spec fn lookup<K, V>(m: Map<K, V>, k: K) -> Option<V> {
    if m.dom().contains(k) {
        Some(m[k])
    } else {
        None
    }
}

/// Whether none of `entries` updates the key `k`.
pub open spec fn never_updates<K, V>(entries: Seq<(K, V)>, k: K) -> bool {
    forall|i: int| 0 <= i < entries.len() ==> (#[trigger] entries[i]).0 != k
}

/// Updates of other keys leave the key `k` as it was: held with the same
/// value, or not held.
pub proof fn lemma_other_updates_keep_key<K, V>(m: Map<K, V>, entries: Seq<(K, V)>, k: K)
    requires
        never_updates(entries, k),
    ensures
        after_updates(m, entries).dom().contains(k) == m.dom().contains(k),
        m.dom().contains(k) ==> after_updates(m, entries)[k] == m[k],
    decreases entries.len(),
{
    if entries.len() > 0 {
        let rest = entries.drop_last();
        assert forall|i: int| 0 <= i < rest.len() implies (#[trigger] rest[i]).0 != k by {
            assert(rest[i] == entries[i]);
        }
        assert(entries[entries.len() - 1].0 != k);
        lemma_other_updates_keep_key(m, rest, k);
    }
}

/// The last update of a key wins: once `k` is mapped to `v`, it stays mapped
/// to `v` whatever updates of other keys follow.
pub proof fn lemma_last_update_wins<K, V>(m: Map<K, V>, k: K, v: V, later: Seq<(K, V)>)
    requires
        never_updates(later, k),
    ensures
        lookup(after_updates(m.insert(k, v), later), k) == Some(v),
{
    lemma_other_updates_keep_key(m.insert(k, v), later, k);
}

/// A key that no update names is not held by a map that started empty.
pub proof fn lemma_never_updated_not_held<K, V>(entries: Seq<(K, V)>, k: K)
    requires
        never_updates(entries, k),
    ensures
        lookup(after_updates(Map::<K, V>::empty(), entries), k) is None,
{
    lemma_other_updates_keep_key(Map::<K, V>::empty(), entries, k);
}

} // verus!
