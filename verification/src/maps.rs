//! Facts about maps whose values are sequences, and about the keys of a
//! `HashMap`.

use std::collections::HashMap;
use std::hash::Hash;
use vstd::prelude::*;
use vstd::std_specs::hash::into_iter_keys;
use vstd::std_specs::hash::obeys_key_model;

verus! {

broadcast use vstd::std_specs::hash::group_hash_axioms;

/// The number of items held by all the sequences of `m` together.
pub open spec fn total_len<K, X>(m: Map<K, Seq<X>>) -> nat
    decreases m.dom().len(),
    when m.dom().finite()
{
    if m.dom().len() == 0 {
        0
    } else {
        let k = m.dom().choose();
        m[k].len() + total_len(m.remove(k))
    }
}

/// Taking any one key out of a finite map takes exactly its sequence's items
/// out of the total.
pub proof fn lemma_total_len_remove<K, X>(m: Map<K, Seq<X>>, k: K)
    requires
        m.dom().finite(),
        m.contains_key(k),
    ensures
        total_len(m) == m[k].len() + total_len(m.remove(k)),
    decreases m.dom().len(),
{
    let c = m.dom().choose();
    assert(m.dom().contains(c));
    if c != k {
        let mc = m.remove(c);
        let mk = m.remove(k);
        lemma_total_len_remove(mc, k);
        lemma_total_len_remove(mk, c);
        assert(mc.remove(k) =~= mk.remove(c));
    }
}

/// The number of items held by the sequences of `m` under the keys `ks`.
pub open spec fn sum_lens<K, X>(m: Map<K, Seq<X>>, ks: Seq<K>) -> nat
    decreases ks.len(),
{
    if ks.len() == 0 {
        0
    } else {
        m[ks[0]].len() + sum_lens(m, ks.drop_first())
    }
}

/// Summing over every key once, in any order, gives the total.
pub proof fn lemma_sum_lens_total<K, X>(m: Map<K, Seq<X>>, ks: Seq<K>)
    requires
        ks.no_duplicates(),
        ks.to_set() == m.dom(),
    ensures
        m.dom().finite(),
        sum_lens(m, ks) == total_len(m),
    decreases ks.len(),
{
    broadcast use vstd::seq_lib::seq_to_set_is_finite;
    if ks.len() == 0 {
        assert(m.dom() =~= Set::empty());
    } else {
        let k = ks[0];
        let rest = ks.drop_first();
        assert(ks.to_set().contains(k));
        assert(rest.to_set() =~= m.remove(k).dom()) by {
            assert forall|x: K| rest.to_set().contains(x) <==> m.remove(k).dom().contains(x) by {
                if rest.to_set().contains(x) {
                    let i = choose|i: int| 0 <= i < rest.len() && rest[i] == x;
                    assert(ks[i + 1] == rest[i]);
                    assert(ks.to_set().contains(x));
                }
                if m.remove(k).dom().contains(x) {
                    assert(ks.to_set().contains(x));
                    let i = choose|i: int| 0 <= i < ks.len() && ks[i] == x;
                    assert(i != 0);
                    assert(rest[i - 1] == ks[i]);
                }
            }
        }
        lemma_sum_lens_total(m.remove(k), rest);
        assert forall|j: int| 0 <= j < rest.len() implies #[trigger] rest[j] != k by {
            assert(ks[j + 1] == rest[j]);
        }
        assert(sum_lens(m, rest) == sum_lens(m.remove(k), rest)) by {
            lemma_sum_lens_agree(m, m.remove(k), rest);
        }
        lemma_total_len_remove(m, k);
    }
}

/// Summing over two runs of keys one after the other adds the two sums.
pub proof fn lemma_sum_lens_append<K, X>(m: Map<K, Seq<X>>, a: Seq<K>, b: Seq<K>)
    ensures
        sum_lens(m, a + b) == sum_lens(m, a) + sum_lens(m, b),
    decreases a.len(),
{
    if a.len() > 0 {
        assert((a + b).drop_first() =~= a.drop_first() + b);
        lemma_sum_lens_append(m, a.drop_first(), b);
    } else {
        assert(a + b =~= b);
    }
}

/// Two maps that agree on the keys summed give the same sum.
proof fn lemma_sum_lens_agree<K, X>(a: Map<K, Seq<X>>, b: Map<K, Seq<X>>, ks: Seq<K>)
    requires
        forall|i: int| 0 <= i < ks.len() ==> #[trigger] a[ks[i]] == b[ks[i]],
    ensures
        sum_lens(a, ks) == sum_lens(b, ks),
    decreases ks.len(),
{
    if ks.len() > 0 {
        assert(a[ks[0]] == b[ks[0]]);
        assert forall|i: int| 0 <= i < ks.drop_first().len() implies #[trigger] a[ks.drop_first()[i]]
            == b[ks.drop_first()[i]] by {
            assert(ks.drop_first()[i] == ks[i + 1]);
        }
        lemma_sum_lens_agree(a, b, ks.drop_first());
    }
}

/// The keys of `m`, each once, in the order the map yields them.
pub fn keys_of<K: Copy + Eq + Hash, V>(m: &HashMap<K, V>) -> (r: Vec<K>)
    requires
        obeys_key_model::<K>(),
    ensures
        r@.no_duplicates(),
        r@.to_set() == m@.dom(),
{
    let mut r: Vec<K> = Vec::new();
    let keys = m.keys();
    let ghost all: Seq<K> = into_iter_keys(keys);
    let ghost mut idx: int = 0;
    proof {
        assert(all.no_duplicates());
    }
    for k in it: keys
        invariant
            it.seq().unref() == all,
            idx == it.index(),
            r@ == all.take(idx),
    {
        r.push(*k);
        proof {
            idx = idx + 1;
        }
    }
    assert(r@ =~= all);
    r
}

} // verus!
