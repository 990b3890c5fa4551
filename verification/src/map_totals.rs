//! Totals over the entries of a per-source map, independent of the order
//! in which the map is walked, and the `u64` wrap-around of a running sum.

use vstd::prelude::*;
use std::collections::HashMap;
use crate::queue_accounting::wrap_add;
use vstd::std_specs::iter::IteratorSpec;

verus! {

/// `s` lists every entry of `m` exactly once.
pub open spec fn lists_entries<V>(s: Seq<(u32, V)>, m: Map<u32, V>) -> bool {
    &&& s.no_duplicates()
    &&& forall|i: int| 0 <= i < s.len() ==> #[trigger] m.contains_key(s[i].0) && m[s[i].0] == s[i].1
    &&& forall|k: u32| #[trigger] m.contains_key(k) ==> s.contains((k, m[k]))
}

/// The step of a running total: `measure` of the entry's value is added.
pub open spec fn add_measure<V>(measure: spec_fn(V) -> nat) -> spec_fn(nat, (u32, V)) -> nat {
    |acc: nat, e: (u32, V)| acc + measure(e.1)
}

/// Sum of `measure` over the values of `m`.
pub open spec fn map_total<V>(m: Map<u32, V>, measure: spec_fn(V) -> nat) -> nat {
    let s = choose|s: Seq<(u32, V)>| lists_entries(s, m);
    s.fold_left(0nat, add_measure(measure))
}

/// Two listings of one map hold the same entries, each once.
proof fn lemma_listings_same_multiset<V>(s1: Seq<(u32, V)>, s2: Seq<(u32, V)>, m: Map<u32, V>)
    requires
        lists_entries(s1, m),
        lists_entries(s2, m),
    ensures
        s1.to_multiset() == s2.to_multiset(),
{
    broadcast use vstd::seq_lib::group_to_multiset_ensures;
    s1.lemma_multiset_has_no_duplicates();
    s2.lemma_multiset_has_no_duplicates();
    assert forall|e: (u32, V)| s1.to_multiset().count(e) == s2.to_multiset().count(e) by {
        if s1.contains(e) {
            let i = choose|i: int| 0 <= i < s1.len() && s1[i] == e;
            assert(m.contains_key(s1[i].0));
            assert(s2.contains((e.0, m[e.0])));
        }
        if s2.contains(e) {
            let i = choose|i: int| 0 <= i < s2.len() && s2[i] == e;
            assert(m.contains_key(s2[i].0));
            assert(s1.contains((e.0, m[e.0])));
        }
    }
    assert(s1.to_multiset() =~= s2.to_multiset());
}

/// A total over a map does not depend on the order in which its entries
/// are visited: every listing of the map sums to the same value.
pub proof fn lemma_total_order_independent<V>(s: Seq<(u32, V)>, m: Map<u32, V>, measure: spec_fn(V) -> nat)
    requires
        lists_entries(s, m),
    ensures
        s.fold_left(0nat, add_measure(measure)) == map_total(m, measure),
{
    let c = choose|c: Seq<(u32, V)>| lists_entries(c, m);
    lemma_listings_same_multiset(s, c, m);
    let f = add_measure(measure);
    assert(vstd::seq_lib::commutative_foldl(f));
    vstd::seq_lib::lemma_fold_left_permutation(s, c, f, 0nat);
}

/// The entries of `m` in the order `HashMap::iter` visits them.
pub proof fn lemma_iteration_lists<V>(m: &HashMap<u32, V>, s: Seq<(&u32, &V)>)
    requires
        s == vstd::std_specs::hash::spec_hash_map_iter(m).remaining(),
        s.no_duplicates(),
    ensures
        lists_entries(s.map_values(|e: (&u32, &V)| (*e.0, *e.1)), m@),
{
    broadcast use vstd::std_specs::hash::axiom_spec_hash_map_iter;
    let t = s.map_values(|e: (&u32, &V)| (*e.0, *e.1));
    assert forall|i: int, j: int| 0 <= i < t.len() && 0 <= j < t.len() && i != j implies t[i] != t[j] by {
        assert(s[i] != s[j]);
    }
    assert forall|i: int| 0 <= i < t.len() implies #[trigger] m@.contains_key(t[i].0) && m@[t[i].0] == t[i].1 by {
        assert(m@.contains_key(*s[i].0));
    }
    assert forall|k: u32| #[trigger] m@.contains_key(k) implies t.contains((k, m@[k])) by {
        assert(s.contains((&k, &m@[k])));
        let i = choose|i: int| 0 <= i < s.len() && s[i] == (&k, &m@[k]);
        assert(t[i] == (k, m@[k]));
    }
}

/// Adding to a running total modulo 2^64 agrees with adding to the exact
/// total and reducing afterwards.
pub proof fn lemma_wrap_step(acc: u64, total: nat, g: u64)
    requires
        acc as nat == total % 0x1_0000_0000_0000_0000,
    ensures
        wrap_add(acc, g) as nat == (total + g) % 0x1_0000_0000_0000_0000,
{
    let m: int = 0x1_0000_0000_0000_0000;
    vstd::arithmetic::div_mod::lemma_add_mod_noop(total as int, g as int, m);
    vstd::arithmetic::div_mod::lemma_small_mod(g as nat, m as nat);
    vstd::arithmetic::div_mod::lemma_mod_bound(((acc as int) + (g as int)), m);
}

} // verus!
