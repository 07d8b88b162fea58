//! Lexicographic order on strings (by code point, which for UTF-8 text is
//! the byte order `String`'s `Ord` uses) and the sorted, duplicate-free
//! copy of a list of strings (`sort` followed by `dedup`).
use vstd::prelude::*;
use crate::text::chars_of;

verus! {

/// `a` sorts strictly before `b`.
pub open spec fn seq_lt(a: Seq<char>, b: Seq<char>) -> bool
    decreases a.len(),
{
    if a.len() == 0 {
        b.len() > 0
    } else if b.len() == 0 {
        false
    } else if a[0] == b[0] {
        seq_lt(a.drop_first(), b.drop_first())
    } else {
        (a[0] as int) < (b[0] as int)
    }
}

/// Every element sorts strictly before every later one.
pub open spec fn strictly_sorted(s: Seq<Seq<char>>) -> bool {
    forall|i: int, j: int| 0 <= i < j < s.len() ==> seq_lt(#[trigger] s[i], #[trigger] s[j])
}

pub proof fn lemma_seq_lt_irreflexive(a: Seq<char>)
    ensures
        !seq_lt(a, a),
    decreases a.len(),
{
    if a.len() > 0 {
        lemma_seq_lt_irreflexive(a.drop_first());
    }
}

pub proof fn lemma_seq_lt_transitive(a: Seq<char>, b: Seq<char>, c: Seq<char>)
    requires
        seq_lt(a, b),
        seq_lt(b, c),
    ensures
        seq_lt(a, c),
    decreases a.len(),
{
    if a.len() > 0 && b.len() > 0 && c.len() > 0 {
        if a[0] == b[0] && b[0] == c[0] {
            lemma_seq_lt_transitive(a.drop_first(), b.drop_first(), c.drop_first());
        }
    }
}

pub proof fn lemma_seq_lt_total(a: Seq<char>, b: Seq<char>)
    ensures
        a == b || seq_lt(a, b) || seq_lt(b, a),
    decreases a.len(),
{
    if a.len() > 0 && b.len() > 0 && a[0] == b[0] {
        lemma_seq_lt_total(a.drop_first(), b.drop_first());
        if a.drop_first() == b.drop_first() {
            assert(a =~= seq![a[0]] + a.drop_first());
            assert(b =~= seq![b[0]] + b.drop_first());
        }
    } else if a.len() > 0 && b.len() > 0 {
        assert((a[0] as int) != (b[0] as int));
    } else if a.len() == 0 && b.len() == 0 {
        assert(a =~= b);
    }
}

proof fn lemma_seq_lt_common_prefix(a: Seq<char>, b: Seq<char>, i: int)
    requires
        0 <= i <= a.len(),
        i <= b.len(),
        a.take(i) == b.take(i),
    ensures
        seq_lt(a, b) == seq_lt(a.skip(i), b.skip(i)),
    decreases i,
{
    if i > 0 {
        assert(a[0] == a.take(i)[0] && b[0] == b.take(i)[0]);
        assert(a.drop_first().take(i - 1) =~= a.take(i).drop_first());
        assert(b.drop_first().take(i - 1) =~= b.take(i).drop_first());
        lemma_seq_lt_common_prefix(a.drop_first(), b.drop_first(), i - 1);
        assert(a.drop_first().skip(i - 1) =~= a.skip(i));
        assert(b.drop_first().skip(i - 1) =~= b.skip(i));
    } else {
        assert(a.skip(0) =~= a);
        assert(b.skip(0) =~= b);
    }
}

/// Whether `a` sorts strictly before `b`.
pub fn sorts_before(a: &[char], b: &[char]) -> (r: bool)
    ensures
        r == seq_lt(a@, b@),
{
    let mut i: usize = 0;
    while i < a.len() && i < b.len() && a[i] == b[i]
        invariant
            i <= a@.len(),
            i <= b@.len(),
            a@.take(i as int) == b@.take(i as int),
        decreases a@.len() - i,
    {
        assert(a@.take(i + 1) =~= a@.take(i as int).push(a@[i as int]));
        assert(b@.take(i + 1) =~= b@.take(i as int).push(b@[i as int]));
        i = i + 1;
    }
    proof {
        lemma_seq_lt_common_prefix(a@, b@, i as int);
    }
    if i == a.len() {
        i < b.len()
    } else if i == b.len() {
        false
    } else {
        assert(a@.skip(i as int)[0] == a@[i as int]);
        assert(b@.skip(i as int)[0] == b@[i as int]);
        a[i] < b[i]
    }
}

/// `v` sorted and with duplicates removed: the one strictly increasing
/// list holding the same strings.
pub fn sorted_unique(v: &Vec<String>) -> (r: Vec<String>)
    ensures
        strictly_sorted(r.deep_view()),
        r.deep_view().to_set() == v.deep_view().to_set(),
{
    let ghost all = v.deep_view();
    let mut out: Vec<String> = Vec::new();
    let mut i: usize = 0;
    assert(out.deep_view().to_set() =~= all.take(0).to_set());
    while i < v.len()
        invariant
            i <= v@.len(),
            all == v.deep_view(),
            strictly_sorted(out.deep_view()),
            out.deep_view().to_set() == all.take(i as int).to_set(),
        decreases v@.len() - i,
    {
        let x = &v[i];
        let xs = crate::text::chars_of(x.as_str());
        assert(all[i as int] == x@);
        let ghost o = out.deep_view();
        let mut p: usize = 0;
        while p < out.len() && sorts_before(
            crate::text::chars_of(out[p].as_str()).as_slice(),
            xs.as_slice(),
        )
            invariant
                p <= out@.len(),
                o == out.deep_view(),
                xs@ == x@,
                forall|q: int| 0 <= q < p ==> seq_lt(#[trigger] o[q], x@),
            decreases out@.len() - p,
        {
            p = p + 1;
        }
        assert(all.take(i + 1) =~= all.take(i as int).push(x@));
        proof {
            let t = all.take(i as int);
            assert forall|y: Seq<char>| #[trigger] t.push(x@).contains(y) <==> (t.contains(y) || y
                == x@) by {
                if t.push(x@).contains(y) {
                    let k = choose|k: int| 0 <= k < t.len() + 1 && t.push(x@)[k] == y;
                    if k < t.len() {
                        assert(t[k] == y);
                    }
                }
                if t.contains(y) {
                    let k = choose|k: int| 0 <= k < t.len() && t[k] == y;
                    assert(t.push(x@)[k] == y);
                }
                if y == x@ {
                    assert(t.push(x@)[t.len() as int] == y);
                }
            }
            assert(all.take(i + 1).to_set() =~= t.to_set().insert(x@));
        }
        let present = p < out.len() && crate::text::seq_eq(
            crate::text::chars_of(out[p].as_str()).as_slice(),
            xs.as_slice(),
        );
        if present {
            assert(o[p as int] == x@);
            assert(o.to_set().contains(x@));
            assert(out.deep_view().to_set() =~= all.take(i + 1).to_set());
        } else {
            proof {
                if p < o.len() {
                    assert(!seq_lt(o[p as int], x@));
                    lemma_seq_lt_total(o[p as int], x@);
                }
            }
            let ghost before = o;
            out.insert(p, x.clone());
            let ghost n = out.deep_view();
            assert(n =~= before.insert(p as int, x@));
            proof {
                assert forall|a: int, b: int| 0 <= a < b < n.len() implies seq_lt(
                    #[trigger] n[a],
                    #[trigger] n[b],
                ) by {
                    if b < p {
                        assert(n[a] == before[a] && n[b] == before[b]);
                    } else if b == p {
                        assert(n[a] == before[a]);
                    } else if a == p {
                        assert(n[b] == before[b - 1]);
                        if b - 1 > p {
                            assert(seq_lt(before[p as int], before[b - 1]));
                            lemma_seq_lt_transitive(x@, before[p as int], before[b - 1]);
                        }
                    } else if a < p {
                        assert(n[a] == before[a] && n[b] == before[b - 1]);
                        if b - 1 >= p {
                            assert(seq_lt(before[a], x@));
                            assert(seq_lt(x@, before[p as int]));
                            lemma_seq_lt_transitive(before[a], x@, before[p as int]);
                            if b - 1 > p {
                                assert(seq_lt(before[p as int], before[b - 1]));
                                lemma_seq_lt_transitive(before[a], before[p as int], before[b - 1]);
                            }
                        } else {
                            assert(seq_lt(before[a], before[b - 1]));
                        }
                    } else {
                        assert(n[a] == before[a - 1] && n[b] == before[b - 1]);
                    }
                }
                assert forall|y: Seq<char>| #[trigger] n.contains(y) <==> (before.contains(y) || y
                    == x@) by {
                    if n.contains(y) {
                        let k = choose|k: int| 0 <= k < n.len() && n[k] == y;
                        if k < p {
                            assert(before[k] == y);
                        } else if k > p {
                            assert(before[k - 1] == y);
                        }
                    }
                    if before.contains(y) {
                        let k = choose|k: int| 0 <= k < before.len() && before[k] == y;
                        if k < p {
                            assert(n[k] == y);
                        } else {
                            assert(n[k + 1] == y);
                        }
                    }
                    if y == x@ {
                        assert(n[p as int] == y);
                    }
                }
                assert(n.to_set() =~= before.to_set().insert(x@));
            }
        }
        i = i + 1;
    }
    assert(all.take(v@.len() as int) =~= all);
    out
}

/// Whether `v` holds the string `s`.
pub fn holds(v: &Vec<String>, s: &[char]) -> (r: bool)
    ensures
        r == v.deep_view().contains(s@),
{
    let mut i: usize = 0;
    while i < v.len()
        invariant
            i <= v@.len(),
            forall|j: int| 0 <= j < i ==> v.deep_view()[j] != s@,
        decreases v@.len() - i,
    {
        assert(v.deep_view()[i as int] == v@[i as int]@);
        if crate::text::seq_eq(crate::text::chars_of(v[i].as_str()).as_slice(), s) {
            return true;
        }
        i = i + 1;
    }
    false
}

/// The members of the sorted list `sorted` that `other` lacks, in order.
pub fn without(sorted: &Vec<String>, other: &Vec<String>) -> (r: Vec<String>)
    requires
        strictly_sorted(sorted.deep_view()),
    ensures
        strictly_sorted(r.deep_view()),
        r.deep_view().to_set() == sorted.deep_view().to_set().difference(other.deep_view().to_set()),
{
    let ghost s = sorted.deep_view();
    let ghost o = other.deep_view();
    let mut out: Vec<String> = Vec::new();
    let ghost mut idx: Seq<int> = seq![];
    let mut i: usize = 0;
    while i < sorted.len()
        invariant
            i <= sorted@.len(),
            s == sorted.deep_view(),
            o == other.deep_view(),
            strictly_sorted(s),
            strictly_sorted(out.deep_view()),
            idx.len() == out.deep_view().len(),
            forall|k: int| 0 <= k < idx.len() ==> 0 <= #[trigger] idx[k] < i && s[idx[k]] == out.deep_view()[k],
            forall|y: Seq<char>| #[trigger] out.deep_view().contains(y) <==> (s.take(i as int).contains(y) && !o.contains(y)),
        decreases sorted@.len() - i,
    {
        let x = &sorted[i];
        assert(s[i as int] == x@);
        let ghost before = out.deep_view();
        proof {
            assert forall|y: Seq<char>| #[trigger] s.take(i + 1).contains(y) <==> (s.take(i as int).contains(y) || y == x@) by {
                if s.take(i + 1).contains(y) {
                    let t1 = s.take(i + 1);
                    let k = choose|k: int| 0 <= k < t1.len() && t1[k] == y;
                    if k < i {
                        assert(s.take(i as int)[k] == y);
                    }
                }
                if s.take(i as int).contains(y) {
                    let t0 = s.take(i as int);
                    let k = choose|k: int| 0 <= k < t0.len() && t0[k] == y;
                    assert(s.take(i + 1)[k] == y);
                }
                if y == x@ {
                    assert(s.take(i + 1)[i as int] == y);
                }
            }
        }
        if !holds(other, crate::text::chars_of(x.as_str()).as_slice()) {
            out.push(x.clone());
            proof {
                let n = out.deep_view();
                assert(n =~= before.push(x@));
                assert forall|a: int, b: int| 0 <= a < b < n.len() implies seq_lt(#[trigger] n[a], #[trigger] n[b]) by {
                    if b == n.len() - 1 {
                        assert(s[idx[a]] == n[a]);
                        assert(idx[a] < i);
                    } else {
                        assert(n[a] == before[a] && n[b] == before[b]);
                    }
                }
                idx = idx.push(i as int);
                assert forall|y: Seq<char>| #[trigger] n.contains(y) <==> (s.take(i + 1).contains(y) && !o.contains(y)) by {
                    if n.contains(y) {
                        let k = choose|k: int| 0 <= k < n.len() && n[k] == y;
                        if k < before.len() {
                            assert(before[k] == y);
                            assert(before.contains(y));
                        }
                    }
                    if s.take(i + 1).contains(y) && !o.contains(y) {
                        if y != x@ {
                            assert(before.contains(y));
                            let k = choose|k: int| 0 <= k < before.len() && before[k] == y;
                            assert(n[k] == y);
                        } else {
                            assert(n[n.len() - 1] == y);
                        }
                    }
                }
            }
        }
        i = i + 1;
    }
    assert(s.take(s.len() as int) =~= s);
    assert(out.deep_view().to_set() =~= s.to_set().difference(o.to_set()));
    out
}

/// The members after the first of a strictly sorted list are the list's
/// members other than the first.
proof fn lemma_sorted_tail_members(a: Seq<Seq<char>>, y: Seq<char>)
    requires
        strictly_sorted(a),
        a.len() > 0,
    ensures
        a.drop_first().contains(y) <==> (a.contains(y) && y != a[0]),
{
    if a.drop_first().contains(y) {
        let k = choose|k: int| 0 <= k < a.drop_first().len() && a.drop_first()[k] == y;
        assert(a[k + 1] == y);
        assert(seq_lt(a[0], a[k + 1]));
        lemma_seq_lt_irreflexive(y);
    }
    if a.contains(y) && y != a[0] {
        let k = choose|k: int| 0 <= k < a.len() && a[k] == y;
        assert(k > 0);
        assert(a.drop_first()[k - 1] == y);
    }
}

/// Two strictly sorted lists holding the same strings are equal: the
/// sorted, duplicate-free arrangement of a set is unique.
pub proof fn lemma_strictly_sorted_unique(a: Seq<Seq<char>>, b: Seq<Seq<char>>)
    requires
        strictly_sorted(a),
        strictly_sorted(b),
        a.to_set() == b.to_set(),
    ensures
        a == b,
    decreases a.len(),
{
    if a.len() == 0 || b.len() == 0 {
        if b.len() > 0 {
            assert(b.to_set().contains(b[0]));
            assert(a.to_set().contains(b[0]));
        }
        if a.len() > 0 {
            assert(a.to_set().contains(a[0]));
            assert(b.to_set().contains(a[0]));
        }
        assert(a =~= b);
    } else {
        assert(a.to_set().contains(a[0]));
        assert(b.to_set().contains(b[0]));
        let j = choose|j: int| 0 <= j < b.len() && b[j] == a[0];
        let i = choose|i: int| 0 <= i < a.len() && a[i] == b[0];
        if a[0] != b[0] {
            assert(j > 0 && i > 0);
            assert(seq_lt(b[0], b[j]));
            assert(seq_lt(a[0], a[i]));
            lemma_seq_lt_transitive(a[0], b[0], a[0]);
            lemma_seq_lt_irreflexive(a[0]);
        }
        let ta = a.drop_first();
        let tb = b.drop_first();
        assert forall|y: Seq<char>| #[trigger] ta.to_set().contains(y) <==> tb.to_set().contains(y) by {
            lemma_sorted_tail_members(a, y);
            lemma_sorted_tail_members(b, y);
            assert(a[0] == b[0]);
            assert(a.to_set().contains(y) == a.contains(y));
            assert(b.to_set().contains(y) == b.contains(y));
            assert(ta.to_set().contains(y) == ta.contains(y));
            assert(tb.to_set().contains(y) == tb.contains(y));
            assert(a.to_set().contains(y) == b.to_set().contains(y));
        }
        assert(ta.to_set() =~= tb.to_set());
        assert(strictly_sorted(ta)) by {
            assert forall|x: int, z: int| 0 <= x < z < ta.len() implies seq_lt(#[trigger] ta[x], #[trigger] ta[z]) by {
                assert(ta[x] == a[x + 1] && ta[z] == a[z + 1]);
            }
        }
        assert(strictly_sorted(tb)) by {
            assert forall|x: int, z: int| 0 <= x < z < tb.len() implies seq_lt(#[trigger] tb[x], #[trigger] tb[z]) by {
                assert(tb[x] == b[x + 1] && tb[z] == b[z + 1]);
            }
        }
        lemma_strictly_sorted_unique(ta, tb);
        assert(a =~= seq![a[0]] + ta);
        assert(b =~= seq![b[0]] + tb);
    }
}

/// The strings of `x` in sorted order without duplicates (what collecting
/// into a `BTreeSet` and back gives).
pub open spec fn sorted_set(x: Seq<Seq<char>>) -> Seq<Seq<char>> {
    choose|s: Seq<Seq<char>>| strictly_sorted(s) && s.to_set() == x.to_set()
}

/// A strictly sorted list with the strings of `x` is `sorted_set(x)`.
pub proof fn lemma_sorted_set(x: Seq<Seq<char>>, s: Seq<Seq<char>>)
    requires
        strictly_sorted(s),
        s.to_set() == x.to_set(),
    ensures
        sorted_set(x) == s,
{
    let t = sorted_set(x);
    assert(strictly_sorted(t) && t.to_set() == x.to_set());
    lemma_strictly_sorted_unique(t, s);
}

/// `v`'s strings sorted, without duplicates.
pub fn sorted_set_exec(v: &Vec<String>) -> (r: Vec<String>)
    ensures
        r.deep_view() == sorted_set(v.deep_view()),
        strictly_sorted(r.deep_view()),
        r.deep_view().to_set() == v.deep_view().to_set(),
{
    let r = sorted_unique(v);
    proof {
        lemma_sorted_set(v.deep_view(), r.deep_view());
    }
    r
}

/// `a` sorts before `b` or equals it.
pub open spec fn seq_le(a: Seq<char>, b: Seq<char>) -> bool {
    a == b || seq_lt(a, b)
}

/// The order of strings (char by char, a prefix first).
pub open spec fn text_order() -> spec_fn(Seq<char>, Seq<char>) -> bool {
    |a: Seq<char>, b: Seq<char>| seq_le(a, b)
}

/// Every string is at most every later one.
pub open spec fn sorted_le(s: Seq<Seq<char>>) -> bool {
    forall|i: int, j: int| 0 <= i < j < s.len() ==> seq_le(#[trigger] s[i], #[trigger] s[j])
}

pub proof fn lemma_text_order_total()
    ensures
        vstd::relations::total_ordering(text_order()),
{
    let r = text_order();
    assert forall|x: Seq<char>, y: Seq<char>| #[trigger] r(x, y) && #[trigger] r(y, x) implies x == y by {
        if x != y {
            lemma_seq_lt_transitive(x, y, x);
            lemma_seq_lt_irreflexive(x);
        }
    }
    assert forall|x: Seq<char>, y: Seq<char>, z: Seq<char>| #[trigger] r(x, y) && #[trigger] r(y, z) implies r(x, z) by {
        if x != y && y != z {
            lemma_seq_lt_transitive(x, y, z);
        }
    }
    assert forall|x: Seq<char>, y: Seq<char>| #[trigger] r(x, y) || #[trigger] r(y, x) by {
        lemma_seq_lt_total(x, y);
    }
}

/// The strings of `s` in sorted order, duplicates kept.
pub open spec fn sorted_texts(s: Seq<Seq<char>>) -> Seq<Seq<char>> {
    s.sort_by(text_order())
}

/// A sorted rearrangement of `s` is `sorted_texts(s)`.
pub proof fn lemma_sorted_texts(s: Seq<Seq<char>>, t: Seq<Seq<char>>)
    requires
        sorted_le(t),
        t.to_multiset() == s.to_multiset(),
    ensures
        sorted_texts(s) == t,
{
    lemma_text_order_total();
    s.lemma_sort_by_ensures(text_order());
    assert(vstd::relations::sorted_by(t, text_order())) by {
        assert forall|i: int, j: int| 0 <= i < j < t.len() implies #[trigger] text_order()(t[i], t[j]) by {
            assert(seq_le(t[i], t[j]));
        }
    }
    vstd::seq_lib::lemma_sorted_unique(s.sort_by(text_order()), t, text_order());
}

/// `v`'s strings sorted, duplicates kept (`sort_unstable` on strings).
pub fn sort_texts(v: &Vec<String>) -> (r: Vec<String>)
    ensures
        r.deep_view() == sorted_texts(v.deep_view()),
{
    broadcast use vstd::seq_lib::group_to_multiset_ensures;
    let ghost all = v.deep_view();
    let mut out: Vec<String> = Vec::new();
    let mut i: usize = 0;
    assert(all.take(0) =~= Seq::<Seq<char>>::empty());
    while i < v.len()
        invariant
            i <= v.len(),
            all == v.deep_view(),
            sorted_le(out.deep_view()),
            out.deep_view().to_multiset() == all.take(i as int).to_multiset(),
        decreases v.len() - i,
    {
        let ghost o = out.deep_view();
        let x = v[i].clone();
        let xv = chars_of(x.as_str());
        assert(x@ == all[i as int]);
        let mut p: usize = 0;
        while p < out.len() && !sorts_before(xv.as_slice(), chars_of(out[p].as_str()).as_slice())
            invariant
                p <= out.len(),
                o == out.deep_view(),
                xv@ == x@,
                forall|j: int| 0 <= j < p ==> !seq_lt(x@, #[trigger] o[j]),
            decreases out.len() - p,
        {
            assert(o[p as int] == out@[p as int]@);
            p = p + 1;
        }
        proof {
            if p < out.len() {
                assert(o[p as int] == out@[p as int]@);
                assert(seq_lt(x@, o[p as int]));
            }
        }
        let ghost xval = x@;
        out.insert(p, x);
        let ghost n = out.deep_view();
        assert(n =~= o.insert(p as int, xval));
        proof {
            assert forall|a: int, b: int| 0 <= a < b < n.len() implies seq_le(#[trigger] n[a], #[trigger] n[b]) by {
                if a < p && b < p {
                    assert(n[a] == o[a] && n[b] == o[b]);
                } else if a < p && b == p {
                    assert(!seq_lt(xval, o[a]));
                    lemma_seq_lt_total(xval, o[a]);
                } else if a < p {
                    assert(n[b] == o[b - 1]);
                    assert(seq_le(o[a], o[b - 1]));
                } else if a == p {
                    assert(n[b] == o[b - 1]);
                    assert(seq_lt(xval, o[p as int]));
                    if b - 1 > p {
                        assert(seq_le(o[p as int], o[b - 1]));
                        if o[p as int] != o[b - 1] {
                            lemma_seq_lt_transitive(xval, o[p as int], o[b - 1]);
                        }
                    }
                } else {
                    assert(n[a] == o[a - 1] && n[b] == o[b - 1]);
                }
            }
            assert(all.take(i + 1) =~= all.take(i as int).push(xval));
            vstd::seq_lib::to_multiset_insert(o, p as int, xval);
            vstd::seq_lib::to_multiset_build(all.take(i as int), xval);
        }
        i = i + 1;
    }
    assert(all.take(v.len() as int) =~= all);
    proof {
        lemma_sorted_texts(all, out.deep_view());
    }
    out
}

} // verus!
