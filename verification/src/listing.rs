//! The order in which a store's entities are listed: by ascending
//! identifier.

use vstd::prelude::*;

verus! {

/// One more than the greatest identifier.
pub open spec fn id_limit() -> nat {
    0x1_0000_0000_0000_0000
}

/// The values whose key is below `bound`, by ascending key.
pub open spec fn values_below<V>(m: Map<u64, V>, bound: nat) -> Seq<V>
    decreases bound,
{
    if bound == 0 {
        Seq::empty()
    } else {
        let before = values_below(m, (bound - 1) as nat);
        if bound <= id_limit() && m.contains_key((bound - 1) as u64) {
            before.push(m[(bound - 1) as u64])
        } else {
            before
        }
    }
}

/// All values of a map, by ascending key.
pub open spec fn in_key_order<V>(m: Map<u64, V>) -> Seq<V> {
    values_below(m, id_limit())
}

/// `keys` and `values` list the entries of `m`, each once, by ascending key.
pub open spec fn lists<V>(keys: Seq<u64>, values: Seq<V>, m: Map<u64, V>) -> bool {
    &&& keys.len() == values.len()
    &&& forall|i: int, j: int| 0 <= i < j < keys.len() ==> keys[i] < keys[j]
    &&& forall|i: int|
        0 <= i < keys.len() ==> m.contains_key(#[trigger] keys[i]) && m[keys[i]] == values[i]
    &&& forall|k: u64| #[trigger]
        m.contains_key(k) ==> exists|i: int| 0 <= i < keys.len() && #[trigger] keys[i] == k
}

proof fn lemma_listed_below<V>(keys: Seq<u64>, values: Seq<V>, m: Map<u64, V>, bound: nat)
    requires
        lists(keys, values, m),
        bound <= id_limit(),
    ensures
        values_below(m, bound).len() <= keys.len(),
        values_below(m, bound) == values.take(values_below(m, bound).len() as int),
        forall|i: int| 0 <= i < values_below(m, bound).len() ==> #[trigger] keys[i] < bound,
        forall|i: int|
            values_below(m, bound).len() <= i < keys.len() ==> #[trigger] keys[i] >= bound,
    decreases bound,
{
    if bound > 0 {
        let lower = (bound - 1) as nat;
        lemma_listed_below(keys, values, m, lower);
        let n = values_below(m, lower).len() as int;
        let k = lower as u64;
        if m.contains_key(k) {
            // The key stands in the list, and its place is the one after
            // the keys that are lower.
            let i = choose|i: int| 0 <= i < keys.len() && #[trigger] keys[i] == k;
            if i > n {
                assert(keys[n] < keys[i]);
            }
        }
    }
}

/// A list of a map's entries by ascending key holds its values in key
/// order.
pub proof fn lemma_listed_in_key_order<V>(keys: Seq<u64>, values: Seq<V>, m: Map<u64, V>)
    requires
        lists(keys, values, m),
    ensures
        values == in_key_order(m),
{
    lemma_listed_below(keys, values, m, id_limit());
    let n = in_key_order(m).len() as int;
    if n < keys.len() {
        assert(keys[n] >= id_limit());
    }
}

/// Whether `value` stands under some key of `m`.
pub open spec fn is_value<V>(m: Map<u64, V>, value: V) -> bool {
    exists|k: u64| #[trigger] m.contains_key(k) && m[k] == value
}

proof fn lemma_values_below<V>(m: Map<u64, V>, bound: nat)
    requires
        bound <= id_limit(),
    ensures
        forall|i: int|
            0 <= i < values_below(m, bound).len() ==> is_value(
                m,
                #[trigger] values_below(m, bound)[i],
            ),
        forall|k: u64|
            k < bound && #[trigger] m.contains_key(k) ==> values_below(m, bound).contains(m[k]),
    decreases bound,
{
    if bound > 0 {
        let lower = (bound - 1) as nat;
        let before = values_below(m, lower);
        let now = values_below(m, bound);
        lemma_values_below(m, lower);
        assert forall|k: u64| k < bound && #[trigger] m.contains_key(k) implies now.contains(
            m[k],
        ) by {
            if k < lower {
                let i = choose|i: int| 0 <= i < before.len() && before[i] == m[k];
                assert(now[i] == m[k]);
            } else {
                assert(now[now.len() - 1] == m[k]);
            }
        }
    }
}

/// The list of a map by key order holds the map's values and nothing
/// else.
pub proof fn lemma_in_key_order_values<V>(m: Map<u64, V>)
    ensures
        forall|i: int|
            0 <= i < in_key_order(m).len() ==> is_value(m, #[trigger] in_key_order(m)[i]),
        forall|k: u64| #[trigger] m.contains_key(k) ==> in_key_order(m).contains(m[k]),
{
    lemma_values_below(m, id_limit());
}

} // verus!
