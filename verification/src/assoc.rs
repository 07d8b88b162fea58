//! Association lists keyed by strings: the map a list of `(key, value)`
//! pairs denotes when a later pair overrides an earlier one, and the facts
//! used when such a list is kept free of duplicate keys.
use vstd::prelude::*;

verus! {

/// The map of a pair list: a later pair overrides an earlier one.
pub open spec fn assoc_map<V>(ps: Seq<(Seq<char>, V)>) -> Map<Seq<char>, V>
    decreases ps.len(),
{
    if ps.len() == 0 {
        Map::empty()
    } else {
        assoc_map(ps.drop_last()).insert(ps.last().0, ps.last().1)
    }
}

/// No key occurs twice.
pub open spec fn unique_keys<V>(ps: Seq<(Seq<char>, V)>) -> bool {
    forall|i: int, j: int| 0 <= i < j < ps.len() ==> (#[trigger] ps[i]).0 != (#[trigger] ps[j]).0
}

/// With unique keys, the map gives each pair's value, and nothing else is
/// in its domain.
pub proof fn lemma_assoc_lookup<V>(ps: Seq<(Seq<char>, V)>)
    requires
        unique_keys(ps),
    ensures
        forall|i: int| 0 <= i < ps.len() ==> #[trigger] assoc_map(ps).contains_key(ps[i].0)
            && assoc_map(ps)[ps[i].0] == ps[i].1,
        forall|k: Seq<char>|
            #[trigger] assoc_map(ps).contains_key(k) ==> exists|i: int|
                0 <= i < ps.len() && (#[trigger] ps[i]).0 == k,
    decreases ps.len(),
{
    if ps.len() > 0 {
        let d = ps.drop_last();
        assert(unique_keys(d)) by {
            assert forall|i: int, j: int| 0 <= i < j < d.len() implies (#[trigger] d[i]).0 != (#[trigger] d[j]).0 by {
                assert(d[i] == ps[i] && d[j] == ps[j]);
            }
        }
        lemma_assoc_lookup(d);
        assert forall|i: int| 0 <= i < ps.len() implies #[trigger] assoc_map(ps).contains_key(ps[i].0)
            && assoc_map(ps)[ps[i].0] == ps[i].1 by {
            if i < ps.len() - 1 {
                assert(d[i] == ps[i]);
                assert(assoc_map(d).contains_key(d[i].0) && assoc_map(d)[d[i].0] == d[i].1);
                assert(ps[i].0 != ps[ps.len() - 1].0);
            }
        }
        assert forall|k: Seq<char>| #[trigger] assoc_map(ps).contains_key(k) implies exists|i: int|
            0 <= i < ps.len() && (#[trigger] ps[i]).0 == k by {
            if k == ps.last().0 {
                assert(ps[ps.len() - 1].0 == k);
            } else {
                assert(assoc_map(d).contains_key(k));
                let i = choose|i: int| 0 <= i < d.len() && (#[trigger] d[i]).0 == k;
                assert(ps[i] == d[i]);
            }
        }
    }
}

/// Replacing the value of an existing key updates the map at that key.
pub proof fn lemma_assoc_update<V>(ps: Seq<(Seq<char>, V)>, i: int, v: V)
    requires
        0 <= i < ps.len(),
        unique_keys(ps),
    ensures
        assoc_map(ps.update(i, (ps[i].0, v))) == assoc_map(ps).insert(ps[i].0, v),
        unique_keys(ps.update(i, (ps[i].0, v))),
    decreases ps.len(),
{
    let k = ps[i].0;
    let u = ps.update(i, (k, v));
    assert forall|a: int, b: int| 0 <= a < b < u.len() implies (#[trigger] u[a]).0 != (#[trigger] u[b]).0 by {
        assert(ps[a].0 != ps[b].0);
    }
    let d = ps.drop_last();
    assert(unique_keys(d)) by {
        assert forall|a: int, b: int| 0 <= a < b < d.len() implies (#[trigger] d[a]).0 != (#[trigger] d[b]).0 by {
            assert(d[a] == ps[a] && d[b] == ps[b]);
        }
    }
    if i == ps.len() - 1 {
        assert(u.drop_last() =~= d);
        assert(assoc_map(u) =~= assoc_map(ps).insert(k, v));
    } else {
        lemma_assoc_update(d, i, v);
        assert(u.drop_last() =~= d.update(i, (k, v)));
        assert(ps.last().0 != k);
        assert(assoc_map(u) =~= assoc_map(ps).insert(k, v));
    }
}

/// Appending a new key keeps the keys unique and adds it to the map.
pub proof fn lemma_assoc_push<V>(ps: Seq<(Seq<char>, V)>, k: Seq<char>, v: V)
    requires
        unique_keys(ps),
        forall|j: int| 0 <= j < ps.len() ==> (#[trigger] ps[j]).0 != k,
    ensures
        assoc_map(ps.push((k, v))) == assoc_map(ps).insert(k, v),
        unique_keys(ps.push((k, v))),
{
    let n = ps.push((k, v));
    assert(n.drop_last() =~= ps);
    assert forall|a: int, b: int| 0 <= a < b < n.len() implies (#[trigger] n[a]).0 != (#[trigger] n[b]).0 by {
        if b == ps.len() {
            assert(n[a] == ps[a]);
        } else {
            assert(n[a] == ps[a] && n[b] == ps[b]);
        }
    }
}

/// The keys of a pair list are the map's domain.
pub proof fn lemma_assoc_keys<V>(ps: Seq<(Seq<char>, V)>)
    ensures
        ps.map_values(|p: (Seq<char>, V)| p.0).to_set() == assoc_map(ps).dom(),
    decreases ps.len(),
{
    let ks = ps.map_values(|p: (Seq<char>, V)| p.0);
    if ps.len() == 0 {
        assert(ks.to_set() =~= Set::<Seq<char>>::empty());
    } else {
        let d = ps.drop_last();
        lemma_assoc_keys(d);
        let kd = d.map_values(|p: (Seq<char>, V)| p.0);
        assert(ks =~= kd.push(ps.last().0));
        assert forall|y: Seq<char>| #[trigger] ks.contains(y) <==> (kd.contains(y) || y
            == ps.last().0) by {
            if ks.contains(y) {
                let k = choose|k: int| 0 <= k < ks.len() && ks[k] == y;
                if k < kd.len() {
                    assert(kd[k] == y);
                }
            }
            if kd.contains(y) {
                let k = choose|k: int| 0 <= k < kd.len() && kd[k] == y;
                assert(ks[k] == y);
            }
            if y == ps.last().0 {
                assert(ks[ks.len() - 1] == y);
            }
        }
        assert(ks.to_set() =~= kd.to_set().insert(ps.last().0));
        assert(assoc_map(ps).dom() =~= assoc_map(d).dom().insert(ps.last().0));
    }
}

} // verus!
