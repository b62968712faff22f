//! Finite mappings held as sequences of pairs with distinct keys.

use vstd::prelude::*;

verus! {

/// The mapping that a sequence of key/value pairs stands for when later pairs
/// win over earlier ones.
pub open spec fn pairs_map<K, V>(s: Seq<(K, V)>) -> Map<K, V>
    decreases s.len(),
{
    if s.len() == 0 {
        Map::empty()
    } else {
        pairs_map(s.drop_last()).insert(s.last().0, s.last().1)
    }
}

/// No key occurs twice in `s`.
pub open spec fn distinct_keys<K, V>(s: Seq<(K, V)>) -> bool {
    forall|i: int, j: int| 0 <= i < j < s.len() ==> (#[trigger] s[i]).0 != (#[trigger] s[j]).0
}

/// With distinct keys, the mapping holds exactly the pairs of the sequence.
pub proof fn lemma_pairs_map<K, V>(s: Seq<(K, V)>)
    requires
        distinct_keys(s),
    ensures
        forall|i: int| 0 <= i < s.len() ==> pairs_map(s).contains_key((#[trigger] s[i]).0)
            && pairs_map(s)[s[i].0] == s[i].1,
        forall|k: K| #[trigger] pairs_map(s).contains_key(k) ==> exists|i: int|
            0 <= i < s.len() && (#[trigger] s[i]).0 == k,
    decreases s.len(),
{
    if s.len() > 0 {
        let init = s.drop_last();
        assert forall|i: int, j: int| 0 <= i < j < init.len() implies (#[trigger] init[i]).0 != (
        #[trigger] init[j]).0 by {
            assert(init[i] == s[i] && init[j] == s[j]);
        }
        lemma_pairs_map(init);
        assert forall|i: int| 0 <= i < s.len() implies pairs_map(s).contains_key(
            (#[trigger] s[i]).0,
        ) && pairs_map(s)[s[i].0] == s[i].1 by {
            if i < s.len() - 1 {
                assert(init[i] == s[i]);
                assert(s[i].0 != s[s.len() - 1].0);
            }
        }
        assert forall|k: K| #[trigger] pairs_map(s).contains_key(k) implies exists|i: int|
            0 <= i < s.len() && (#[trigger] s[i]).0 == k by {
            if k == s.last().0 {
                assert(s[s.len() - 1].0 == k);
            } else {
                assert(pairs_map(init).contains_key(k));
                let i = choose|i: int| 0 <= i < init.len() && (#[trigger] init[i]).0 == k;
                assert(init[i] == s[i]);
            }
        }
    }
}

/// Replacing the value of a pair keeps the keys distinct and updates the
/// mapping under that pair's key.
pub proof fn lemma_update_pair<K, V>(before: Seq<(K, V)>, i: int, value: V)
    requires
        distinct_keys(before),
        0 <= i < before.len(),
    ensures
        distinct_keys(before.update(i, (before[i].0, value))),
        pairs_map(before.update(i, (before[i].0, value))) == pairs_map(before).insert(
            before[i].0,
            value,
        ),
{
    let key = before[i].0;
    let after = before.update(i, (key, value));
    assert forall|a: int, b: int| 0 <= a < b < after.len() implies (#[trigger] after[a]).0 != (
    #[trigger] after[b]).0 by {
        assert(after[a].0 == before[a].0);
        assert(after[b].0 == before[b].0);
    }
    lemma_pairs_map(before);
    lemma_pairs_map(after);
    assert forall|k: K| #[trigger]
        pairs_map(before).insert(key, value).contains_key(k) implies pairs_map(after).contains_key(
        k,
    ) by {
        if k != key {
            let j = choose|j: int| 0 <= j < before.len() && (#[trigger] before[j]).0 == k;
            assert(after[j].0 == k);
        } else {
            assert(after[i].0 == k);
        }
    }
    assert forall|k: K| #[trigger] pairs_map(after).contains_key(k) implies pairs_map(
        before,
    ).insert(key, value).contains_key(k) && pairs_map(before).insert(key, value)[k] == pairs_map(
        after,
    )[k] by {
        let j = choose|j: int| 0 <= j < after.len() && (#[trigger] after[j]).0 == k;
        assert(before[j].0 == k);
        if j != i {
            assert(after[j] == before[j]);
        }
    }
    assert(pairs_map(after) =~= pairs_map(before).insert(key, value));
}

/// Appending a pair under a new key keeps the keys distinct and inserts the
/// pair into the mapping.
pub proof fn lemma_push_pair<K, V>(before: Seq<(K, V)>, key: K, value: V)
    requires
        distinct_keys(before),
        forall|j: int| 0 <= j < before.len() ==> (#[trigger] before[j]).0 != key,
    ensures
        distinct_keys(before.push((key, value))),
        pairs_map(before.push((key, value))) == pairs_map(before).insert(key, value),
{
    let after = before.push((key, value));
    assert(after.drop_last() =~= before);
    assert(after.last() == (key, value));
    assert forall|a: int, b: int| 0 <= a < b < after.len() implies (#[trigger] after[a]).0 != (
    #[trigger] after[b]).0 by {
        assert(after[a] == before[a]);
        if b < before.len() {
            assert(after[b] == before[b]);
        }
    }
}

/// The pairs of `s`, in order, whose value `keep` accepts.
pub open spec fn kept<K, V>(s: Seq<(K, V)>, keep: spec_fn(V) -> bool) -> Seq<(K, V)>
    decreases s.len(),
{
    if s.len() == 0 {
        Seq::empty()
    } else if keep(s.last().1) {
        kept(s.drop_last(), keep).push(s.last())
    } else {
        kept(s.drop_last(), keep)
    }
}

/// The entries of `m` whose value `keep` accepts.
pub open spec fn restricted<K, V>(m: Map<K, V>, keep: spec_fn(V) -> bool) -> Map<K, V> {
    Map::new(|k: K| m.contains_key(k) && keep(m[k]), |k: K| m[k])
}

/// Keeping the accepted pairs of a sequence keeps the accepted entries of
/// its mapping.
pub proof fn lemma_kept<K, V>(s: Seq<(K, V)>, keep: spec_fn(V) -> bool)
    requires
        distinct_keys(s),
    ensures
        distinct_keys(kept(s, keep)),
        pairs_map(kept(s, keep)) == restricted(pairs_map(s), keep),
    decreases s.len(),
{
    if s.len() == 0 {
        assert(pairs_map(kept(s, keep)) =~= restricted(pairs_map(s), keep));
    } else {
        let init = s.drop_last();
        let last = s.last();
        assert forall|i: int, j: int| 0 <= i < j < init.len() implies (#[trigger] init[i]).0 != (
        #[trigger] init[j]).0 by {
            assert(init[i] == s[i] && init[j] == s[j]);
        }
        lemma_kept(init, keep);
        lemma_pairs_map(init);
        let chosen = kept(init, keep);
        lemma_pairs_map(chosen);
        assert(!pairs_map(init).contains_key(last.0)) by {
            if pairs_map(init).contains_key(last.0) {
                let i = choose|i: int| 0 <= i < init.len() && (#[trigger] init[i]).0 == last.0;
                assert(init[i] == s[i]);
                assert(s[i].0 != s[s.len() - 1].0);
            }
        }
        if keep(last.1) {
            assert forall|j: int| 0 <= j < chosen.len() implies (#[trigger] chosen[j]).0
                != last.0 by {
                assert(pairs_map(chosen).contains_key(chosen[j].0));
            }
            lemma_push_pair(chosen, last.0, last.1);
            assert(chosen.push(last) == kept(s, keep));
            assert(restricted(pairs_map(init), keep).insert(last.0, last.1) =~= restricted(
                pairs_map(s),
                keep,
            ));
        } else {
            assert(restricted(pairs_map(init), keep) =~= restricted(pairs_map(s), keep));
        }
    }
}

} // verus!
