//! Tables of amounts as mathematical maps: what an account holds, what a
//! credit or a debit makes of a table, how many entries fit, and the total
//! of a table with how it moves when one entry is written.
use vstd::prelude::*;

verus! {

/// The amount that `m` holds for `k`: an absent entry counts as zero.
pub open spec fn amount_of<K>(m: Map<K, u128>, k: K) -> nat {
    if m.contains_key(k) {
        m[k] as nat
    } else {
        0
    }
}

/// The table `m` after `x` was added to what it holds for `k`.
pub open spec fn credited<K>(m: Map<K, u128>, k: K, x: u128) -> Map<K, u128> {
    m.insert(k, (amount_of(m, k) + x) as u128)
}

/// The table `m` after `x` was taken from what it holds for `k`.
pub open spec fn debited<K>(m: Map<K, u128>, k: K, x: u128) -> Map<K, u128> {
    m.insert(k, (amount_of(m, k) - x) as u128)
}

/// Whether a storage table can hold the entries of `m`: a table counts its
/// entries in a `u32`.
pub open spec fn fits<K, V>(m: Map<K, V>) -> bool {
    m.dom().finite() && m.dom().len() <= u32::MAX
}

/// The sum of all amounts in a finite table.
pub open spec fn sum_values<K>(m: Map<K, u128>) -> nat
    decreases m.dom().len(),
    when m.dom().finite()
{
    if m.dom().len() == 0 {
        0
    } else {
        let k = m.dom().choose();
        m[k] as nat + sum_values(m.remove(k))
    }
}

/// A table without entries sums to zero.
pub proof fn lemma_sum_empty<K>(m: Map<K, u128>)
    requires
        m.dom() =~= Set::<K>::empty(),
    ensures
        sum_values(m) == 0,
{
}

/// Any one entry can be split off the sum.
pub proof fn lemma_sum_remove<K>(m: Map<K, u128>, k: K)
    requires
        m.dom().finite(),
        m.contains_key(k),
    ensures
        sum_values(m) == m[k] as nat + sum_values(m.remove(k)),
    decreases m.dom().len(),
{
    let c = m.dom().choose();
    if c != k {
        lemma_sum_remove(m.remove(c), k);
        lemma_sum_remove(m.remove(k), c);
        assert(m.remove(c).remove(k) =~= m.remove(k).remove(c));
    }
}

/// Writing one entry moves the sum by the difference between the new amount
/// and what the key held before.
pub proof fn lemma_sum_insert<K>(m: Map<K, u128>, k: K, v: u128)
    requires
        m.dom().finite(),
    ensures
        sum_values(m.insert(k, v)) + amount_of(m, k) == sum_values(m) + v as nat,
{
    lemma_sum_remove(m.insert(k, v), k);
    assert(m.insert(k, v).remove(k) =~= m.remove(k));
    if m.contains_key(k) {
        lemma_sum_remove(m, k);
    } else {
        assert(m.remove(k) =~= m);
    }
}

/// No single amount exceeds the sum.
pub proof fn lemma_sum_bounds_each<K>(m: Map<K, u128>, k: K)
    requires
        m.dom().finite(),
    ensures
        amount_of(m, k) <= sum_values(m),
{
    if m.contains_key(k) {
        lemma_sum_remove(m, k);
    }
}

/// Writing one entry into a finite table adds one to the number of entries
/// where the key is new, and nothing where it was there already.
pub proof fn lemma_insert_len<K, V>(m: Map<K, V>, k: K, v: V)
    requires
        m.dom().finite(),
    ensures
        m.insert(k, v).dom().finite(),
        m.insert(k, v).dom().len() == m.dom().len() + (if m.contains_key(k) {
            0int
        } else {
            1int
        }),
{
    assert(m.insert(k, v).dom() =~= m.dom().insert(k));
}

} // verus!
