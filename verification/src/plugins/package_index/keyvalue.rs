//! `key = value` metadata (`.PKGINFO`, apk control data) as an ordered list
//! of pairs whose later entries override earlier ones.
use vstd::prelude::*;

use crate::sorted::{sorted_unique, strictly_sorted};
use crate::text::{split_once_class, trim};

verus! {

/// The pair a metadata line carries: none for a blank line, a `#` comment or
/// a line without `=`; otherwise the trimmed text around the first `=`.
pub open spec fn kv_of_line(line: Seq<char>) -> Option<(Seq<char>, Seq<char>)> {
    let l = trim(line);
    if l.len() == 0 || l[0] == '#' {
        None
    } else {
        match split_once_class(l, seq!['=']) {
            Some((k, v)) => Some((trim(k), trim(v))),
            None => None,
        }
    }
}

/// The pairs of the metadata lines, in order.
pub open spec fn kv_pairs(ls: Seq<Seq<char>>) -> Seq<(Seq<char>, Seq<char>)>
    decreases ls.len(),
{
    if ls.len() == 0 {
        seq![]
    } else {
        let p = kv_pairs(ls.drop_last());
        match kv_of_line(ls.last()) {
            Some(kv) => p.push(kv),
            None => p,
        }
    }
}

/// The map a list of pairs denotes: a later pair overrides an earlier one
/// with the same key.
pub open spec fn kv_map(ps: Seq<(Seq<char>, Seq<char>)>) -> Map<Seq<char>, Seq<char>>
    decreases ps.len(),
{
    if ps.len() == 0 {
        Map::empty()
    } else {
        kv_map(ps.drop_last()).insert(ps.last().0, ps.last().1)
    }
}

/// Parsed `key = value` metadata.
#[derive(Debug, Clone)]
pub struct KeyValues {
    /// The pairs in file order; a later pair overrides an earlier one.
    pub pairs: Vec<(String, String)>,
}

/// The values of a list of string pairs.
pub open spec fn pairs_view(ps: Seq<(String, String)>) -> Seq<(Seq<char>, Seq<char>)> {
    ps.map_values(|p: (String, String)| (p.0@, p.1@))
}

impl View for KeyValues {
    type V = Map<Seq<char>, Seq<char>>;

    open spec fn view(&self) -> Map<Seq<char>, Seq<char>> {
        kv_map(pairs_view(self.pairs@))
    }
}

proof fn lemma_kv_map_tail(ps: Seq<(Seq<char>, Seq<char>)>, k: Seq<char>, i: int)
    requires
        0 <= i <= ps.len(),
        forall|j: int| i <= j < ps.len() ==> (#[trigger] ps[j]).0 != k,
    ensures
        kv_map(ps).contains_key(k) == kv_map(ps.take(i)).contains_key(k),
        kv_map(ps).contains_key(k) ==> kv_map(ps)[k] == kv_map(ps.take(i))[k],
    decreases ps.len() - i,
{
    if i < ps.len() {
        let d = ps.drop_last();
        assert forall|j: int| i <= j < d.len() implies (#[trigger] d[j]).0 != k by {
            assert(d[j] == ps[j]);
        }
        lemma_kv_map_tail(d, k, i);
        assert(d.take(i) =~= ps.take(i));
    } else {
        assert(ps.take(i) =~= ps);
    }
}

/// The value a pair list records for `key`: the last one.
pub fn lookup_pairs<'a>(pairs: &'a Vec<(String, String)>, key: &str) -> (r: Option<&'a String>)
    ensures
        match r {
            Some(v) => kv_map(pairs_view(pairs@)).contains_key(key@) && kv_map(pairs_view(pairs@))[key@] == v@,
            None => !kv_map(pairs_view(pairs@)).contains_key(key@),
        },
{
    let ghost ps = pairs_view(pairs@);
    let k = String::from_str(key);
    let mut i: usize = pairs.len();
    while i > 0
        invariant
            i <= pairs@.len(),
            ps == pairs_view(pairs@),
            k@ == key@,
            forall|j: int| i <= j < ps.len() ==> (#[trigger] ps[j]).0 != key@,
        decreases i,
    {
        if pairs[i - 1].0 == k {
            proof {
                lemma_kv_map_tail(ps, key@, i as int);
                assert(ps.take(i as int).drop_last() =~= ps.take(i - 1));
            }
            return Some(&pairs[i - 1].1);
        }
        i = i - 1;
    }
    proof {
        lemma_kv_map_tail(ps, key@, 0);
    }
    None
}

impl KeyValues {
    /// The value recorded for `key`, if any (the last one in file order).
    pub fn get(&self, key: &str) -> (r: Option<&String>)
        ensures
            match r {
                Some(v) => self@.contains_key(key@) && self@[key@] == v@,
                None => !self@.contains_key(key@),
            },
    {
        lookup_pairs(&self.pairs, key)
    }
}

/// The keys of a pair list are the map's domain.
pub proof fn lemma_kv_map_keys(ps: Seq<(Seq<char>, Seq<char>)>)
    ensures
        ps.map_values(|p: (Seq<char>, Seq<char>)| p.0).to_set() == kv_map(ps).dom(),
    decreases ps.len(),
{
    let ks = ps.map_values(|p: (Seq<char>, Seq<char>)| p.0);
    if ps.len() == 0 {
        assert(ks.to_set() =~= Set::<Seq<char>>::empty());
    } else {
        let d = ps.drop_last();
        lemma_kv_map_keys(d);
        let kd = d.map_values(|p: (Seq<char>, Seq<char>)| p.0);
        assert(ks =~= kd.push(ps.last().0));
        assert forall|y: Seq<char>| #[trigger] ks.contains(y) <==> (kd.contains(y) || y
            == ps.last().0) by {
            if ks.contains(y) {
                let k = choose|k: int| 0 <= k < ks.len() && ks[k] == y;
                if k < kd.len() {
                    assert(kd[k] == y);
                }
            }
            if kd.contains(y) {
                let k = choose|k: int| 0 <= k < kd.len() && kd[k] == y;
                assert(ks[k] == y);
            }
            if y == ps.last().0 {
                assert(ks[ks.len() - 1] == y);
            }
        }
        assert(ks.to_set() =~= kd.to_set().insert(ps.last().0));
        assert(kv_map(ps).dom() =~= kv_map(d).dom().insert(ps.last().0));
    }
}

impl KeyValues {
    /// The keys, sorted and without duplicates.
    pub fn sorted_keys(&self) -> (r: Vec<String>)
        ensures
            strictly_sorted(r.deep_view()),
            r.deep_view().to_set() == self@.dom(),
    {
        let ghost ps = pairs_view(self.pairs@);
        let mut keys: Vec<String> = Vec::new();
        let mut j: usize = 0;
        while j < self.pairs.len()
            invariant
                j <= self.pairs@.len(),
                ps == pairs_view(self.pairs@),
                keys.deep_view() == ps.take(j as int).map_values(|p: (Seq<char>, Seq<char>)| p.0),
            decreases self.pairs@.len() - j,
        {
            let ghost before = keys.deep_view();
            keys.push(self.pairs[j].0.clone());
            assert(keys.deep_view() =~= before.push(ps[j as int].0));
            assert(ps.take(j + 1) =~= ps.take(j as int).push(ps[j as int]));
            assert(ps.take(j + 1).map_values(|p: (Seq<char>, Seq<char>)| p.0) =~= ps.take(
                j as int,
            ).map_values(|p: (Seq<char>, Seq<char>)| p.0).push(ps[j as int].0));
            j = j + 1;
        }
        assert(ps.take(ps.len() as int) =~= ps);
        proof {
            lemma_kv_map_keys(ps);
        }
        sorted_unique(&keys)
    }
}

} // verus!
