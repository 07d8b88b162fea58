//! RPM relation handling: the package config's comma-separated relation
//! strings (Debian, RPM and pacman spellings) parsed into the dependency
//! records an RPM header carries.
use vstd::prelude::*;

use crate::digests::{hex_lower, sha256_digest};
use crate::text::{
    in_class, is_ws, lemma_find_class_after, lemma_find_class_none, lemma_single_class,
    lemma_strip_end, lemma_strip_start, lemma_trim_id, lemma_trim_pad,
    contains_exec,
    contains_str,
    before_class,
    before_class_exec,
    chars_of,
    find_class,
    find_class_from,
    find_exec,
    find_str,
    occurs_at,
    non_empty,
    slice_to_vec,
    split_class,
    split_class_exec,
    starts_with,
    starts_with_exec,
    string_of,
    strip_end,
    strip_end_slice,
    strip_start,
    strip_start_slice,
    trim,
    trim_all,
    trim_slice,
    trimmed_non_empty,
};

verus! {

/// The version comparison of an RPM dependency.
#[derive(PartialEq, Eq, Structural, Clone, Copy, Debug)]
pub enum RelOp {
    /// No version constraint.
    Any,
    Less,
    LessEq,
    Eq,
    GreaterEq,
    Greater,
}

/// One RPM dependency: a name, an optional version constraint, and the
/// legacy `PREREQ` ordering flag.
#[derive(Debug)]
pub struct Dependency {
    pub name: String,
    pub op: RelOp,
    /// Empty when `op` is `Any`.
    pub version: String,
    /// Set for Debian `Pre-Depends` folded into `Requires`.
    pub prereq: bool,
}

/// The value of a [`Dependency`].
pub struct DepView {
    pub name: Seq<char>,
    pub op: RelOp,
    pub version: Seq<char>,
    pub prereq: bool,
}

impl View for Dependency {
    type V = DepView;

    open spec fn view(&self) -> DepView {
        DepView { name: self.name@, op: self.op, version: self.version@, prereq: self.prereq }
    }
}

/// The values of a list of dependencies.
pub open spec fn deps_view(ds: Seq<Dependency>) -> Seq<DepView> {
    ds.map_values(|d: Dependency| d@)
}

/// The names of a list of dependency values.
pub open spec fn dep_names(ds: Seq<DepView>) -> Seq<Seq<char>> {
    ds.map_values(|d: DepView| d.name)
}

/// A name-only dependency (`Dependency::any`).
pub open spec fn any_dep(name: Seq<char>) -> DepView {
    DepView { name, op: RelOp::Any, version: Seq::empty(), prereq: false }
}

/// The relation operators, in the order they are tried.
pub open spec fn rel_ops() -> Seq<Seq<char>> {
    seq![">="@, "<="@, ">>"@, "<<"@, ">"@, "<"@, "="@]
}

/// The comparison meant by the operator at `k` in [`rel_ops`]; Debian's
/// strict `>>`/`<<` are RPM's `>`/`<`.
pub open spec fn op_of_index(k: int) -> RelOp {
    if k == 0 {
        RelOp::GreaterEq
    } else if k == 1 {
        RelOp::LessEq
    } else if k == 2 || k == 4 {
        RelOp::Greater
    } else if k == 3 || k == 5 {
        RelOp::Less
    } else if k == 6 {
        RelOp::Eq
    } else {
        RelOp::Any
    }
}

/// A dependency on `name` with the operator at `k`; an empty name stays
/// unconstrained.
pub open spec fn relation_dep(name: Seq<char>, k: int, version: Seq<char>) -> DepView {
    if name.len() == 0 || op_of_index(k) == RelOp::Any {
        any_dep(name)
    } else {
        DepView { name, op: op_of_index(k), version, prereq: false }
    }
}

/// The first operator (from `k` on) that `s` starts with, and the trimmed
/// rest.
pub open spec fn split_op_from(s: Seq<char>, k: int) -> Option<(int, Seq<char>)>
    decreases 7 - k,
{
    if k < 0 || k >= 7 {
        None
    } else if starts_with(s, rel_ops()[k]) {
        Some((k, trim(s.skip(rel_ops()[k].len() as int))))
    } else {
        split_op_from(s, k + 1)
    }
}

/// The first operator (from `k` on) that occurs in `s`, with the position of
/// its first occurrence.
pub open spec fn find_op_from(s: Seq<char>, k: int) -> Option<(int, int)>
    decreases 7 - k,
{
    if k < 0 || k >= 7 {
        None
    } else if find_str(s, rel_ops()[k]) >= 0 {
        Some((k, find_str(s, rel_ops()[k])))
    } else {
        find_op_from(s, k + 1)
    }
}

/// The dependency one relation clause denotes: the first Debian alternative
/// only, in Debian (`name (>= 1.2)`), RPM (`name >= 1.2`) or pacman
/// (`name>=1.2`) spelling.
pub open spec fn relation_of(clause: Seq<char>) -> DepView {
    let c = trim(before_class(clause, seq!['|']));
    let p = find_class(c, false, seq!['(']);
    if p >= 0 {
        let name = trim(c.take(p));
        let inner = trim(strip_end(strip_start(c.skip(p), false, seq!['(']), false, seq![')']));
        match split_op_from(inner, 0) {
            Some((k, v)) => relation_dep(name, k, v),
            None => any_dep(name),
        }
    } else {
        match find_op_from(c, 0) {
            Some((k, i)) => relation_dep(
                trim(c.take(i)),
                k,
                trim(c.skip(i + rel_ops()[k].len())),
            ),
            None => any_dep(c),
        }
    }
}

/// A package name as a relation clause may carry it: non-empty, not padded
/// with whitespace, and without `|` or `(`.
pub open spec fn clause_name_ok(n: Seq<char>) -> bool {
    &&& n.len() > 0
    &&& !is_ws(n[0])
    &&& !is_ws(n.last())
    &&& forall|j: int| 0 <= j < n.len() ==> #[trigger] n[j] != '|' && n[j] != '('
}

/// A version as a relation clause may carry it: non-empty, not padded with
/// whitespace, without `|`, and not ending in `)`.
pub open spec fn clause_version_ok(v: Seq<char>) -> bool {
    &&& v.len() > 0
    &&& !is_ws(v[0])
    &&& !is_ws(v.last())
    &&& v.last() != ')'
    &&& forall|j: int| 0 <= j < v.len() ==> #[trigger] v[j] != '|'
}

/// Nothing in `n (o v)` is a `|`: the clause has no alternatives.
proof fn lemma_clause_no_bar(n: Seq<char>, o: Seq<char>, v: Seq<char>)
    requires
        forall|j: int| 0 <= j < n.len() ==> #[trigger] n[j] != '|',
        forall|j: int| 0 <= j < o.len() ==> #[trigger] o[j] != '|',
        forall|j: int| 0 <= j < v.len() ==> #[trigger] v[j] != '|',
    ensures
        ({
            let clause = n + seq![' ', '('] + o + seq![' '] + v + seq![')'];
            before_class(clause, seq!['|']) == clause
        }),
{
    let clause = n + seq![' ', '('] + o + seq![' '] + v + seq![')'];
    assert forall|j: int| 0 <= j < clause.len() implies !in_class(
        #[trigger] clause[j],
        false,
        seq!['|'],
    ) by {
        lemma_single_class(clause[j], '|');
        if j < n.len() {
            assert(clause[j] == n[j]);
        } else if j < n.len() + 2 {
        } else if j < n.len() + 2 + o.len() {
            assert(clause[j] == o[j - n.len() - 2]);
        } else if j == n.len() + 2 + o.len() {
        } else if j < clause.len() - 1 {
            assert(clause[j] == v[j - n.len() - 3 - o.len()]);
        }
    }
    lemma_find_class_none(clause, false, seq!['|']);
}

/// In `n (rest`, with no `(` in `n`, the name is `n` and what follows the
/// first `(` is `rest`.
proof fn lemma_clause_name(n: Seq<char>, rest: Seq<char>)
    requires
        n.len() > 0,
        !is_ws(n[0]),
        !is_ws(n.last()),
        forall|j: int| 0 <= j < n.len() ==> #[trigger] n[j] != '(',
    ensures
        ({
            let c = n + seq![' ', '('] + rest;
            let p = find_class(c, false, seq!['(']);
            p >= 0 && trim(c.take(p)) == n && c.skip(p) == seq!['('] + rest
        }),
{
    let c = n + seq![' ', '('] + rest;
    let head = n + seq![' '];
    assert(c =~= head + seq!['('] + rest);
    assert forall|j: int| 0 <= j < head.len() implies !in_class(#[trigger] head[j], false, seq!['('])
        by {
        lemma_single_class(head[j], '(');
        if j < n.len() {
            assert(head[j] == n[j]);
        }
    }
    lemma_single_class('(', '(');
    lemma_find_class_after(head, '(', rest, false, seq!['(']);
    assert(c.take(n.len() as int + 1) =~= head);
    assert(c.skip(n.len() as int + 1) =~= seq!['('] + rest);
    lemma_trim_pad(n);
}

/// Inside `(o v)` the operator text is `o v`.
proof fn lemma_clause_inner(o: Seq<char>, v: Seq<char>)
    requires
        o.len() > 0,
        !is_ws(o[0]),
        o[0] != '(',
        clause_version_ok(v),
    ensures
        trim(strip_end(strip_start(seq!['('] + o + seq![' '] + v + seq![')'], false, seq!['(']), false, seq![')']))
            == o + seq![' '] + v,
{
    let rest = o + seq![' '] + v + seq![')'];
    let opened = seq!['('] + rest;
    assert(opened =~= seq!['('] + o + seq![' '] + v + seq![')']);
    lemma_single_class('(', '(');
    lemma_single_class(o[0], '(');
    assert(opened[0] == '(');
    assert(opened[1] == o[0]);
    lemma_strip_start(opened, false, seq!['('], 1);
    assert(opened.skip(1) =~= rest);
    let inner = o + seq![' '] + v;
    lemma_single_class(')', ')');
    lemma_single_class(v.last(), ')');
    assert(rest[rest.len() - 1] == ')');
    assert(rest[rest.len() - 2] == v.last());
    lemma_strip_end(rest, false, seq![')'], rest.len() - 1);
    assert(rest.take(rest.len() - 1) =~= inner);
    assert(inner[0] == o[0]);
    assert(inner.last() == v.last());
    lemma_trim_id(inner);
}

/// A Debian-style clause `n (o v)` is read as the operator text `o v`
/// applied to the name `n`.
proof fn lemma_paren_clause(n: Seq<char>, o: Seq<char>, v: Seq<char>)
    requires
        clause_name_ok(n),
        clause_version_ok(v),
        o.len() > 0,
        !is_ws(o[0]),
        o[0] != '(',
        forall|j: int| 0 <= j < o.len() ==> #[trigger] o[j] != '|',
    ensures
        relation_of(n + seq![' ', '('] + o + seq![' '] + v + seq![')']) == match split_op_from(
            o + seq![' '] + v,
            0,
        ) {
            Some((k, w)) => relation_dep(n, k, w),
            None => any_dep(n),
        },
{
    let rest = o + seq![' '] + v + seq![')'];
    let clause = n + seq![' ', '('] + o + seq![' '] + v + seq![')'];
    assert(clause =~= n + seq![' ', '('] + rest);
    lemma_clause_no_bar(n, o, v);
    assert(!is_ws(')'));
    assert(clause[0] == n[0]);
    assert(clause.last() == ')');
    lemma_trim_id(clause);
    let c = trim(before_class(clause, seq!['|']));
    assert(c == clause);
    lemma_clause_name(n, rest);
    lemma_clause_inner(o, v);
    assert(seq!['('] + rest =~= seq!['('] + o + seq![' '] + v + seq![')']);
}

/// The first operator tried that `s` starts with is the one at `k`.
proof fn lemma_split_op_at(s: Seq<char>, j: int, k: int)
    requires
        0 <= j <= k < 7,
        forall|i: int| j <= i < k ==> !starts_with(s, #[trigger] rel_ops()[i]),
        starts_with(s, rel_ops()[k]),
    ensures
        split_op_from(s, j) == Some((k, trim(s.skip(rel_ops()[k].len() as int)))),
    decreases k - j,
{
    if j < k {
        lemma_split_op_at(s, j + 1, k);
    }
}

/// Text whose character at `j` differs from the pattern's does not start
/// with the pattern.
proof fn lemma_not_starts(s: Seq<char>, pat: Seq<char>, j: int)
    requires
        0 <= j < pat.len(),
        j < s.len(),
        s[j] != pat[j],
    ensures
        !starts_with(s, pat),
{
    if starts_with(s, pat) {
        assert(s.take(pat.len() as int)[j] == s[j]);
    }
}

/// The operator spellings, character by character.
proof fn lemma_rel_ops_chars()
    ensures
        rel_ops()[0] == seq!['>', '='],
        rel_ops()[1] == seq!['<', '='],
        rel_ops()[2] == seq!['>', '>'],
        rel_ops()[3] == seq!['<', '<'],
        rel_ops()[4] == seq!['>'],
        rel_ops()[5] == seq!['<'],
        rel_ops()[6] == seq!['='],
{
    reveal_strlit(">=");
    reveal_strlit("<=");
    reveal_strlit(">>");
    reveal_strlit("<<");
    reveal_strlit(">");
    reveal_strlit("<");
    reveal_strlit("=");
}

/// A Debian clause `n (o v)` whose operator text is the one at `k`.
proof fn lemma_debian_op(n: Seq<char>, v: Seq<char>, o: Seq<char>, k: int)
    requires
        clause_name_ok(n),
        clause_version_ok(v),
        0 <= k < 7,
        o == rel_ops()[k],
        forall|i: int| 0 <= i < k ==> !starts_with(o + seq![' '] + v, #[trigger] rel_ops()[i]),
    ensures
        relation_of(n + seq![' ', '('] + o + seq![' '] + v + seq![')']) == relation_dep(n, k, v),
{
    reveal_strlit(">=");
    reveal_strlit("<=");
    reveal_strlit(">>");
    reveal_strlit("<<");
    reveal_strlit(">");
    reveal_strlit("<");
    reveal_strlit("=");
    let inner = o + seq![' '] + v;
    assert(o.len() > 0);
    assert(o[0] == '>' || o[0] == '<' || o[0] == '=');
    assert(!is_ws(o[0]));
    assert forall|j: int| 0 <= j < o.len() implies #[trigger] o[j] != '|' by {}
    lemma_paren_clause(n, o, v);
    assert(inner.take(o.len() as int) =~= o);
    lemma_split_op_at(inner, 0, k);
    assert(inner.skip(o.len() as int) =~= seq![' '] + v);
    lemma_trim_pad(v);
}

/// Each Debian relation operator gives its comparison: in `n (>= v)`,
/// `n (<= v)`, `n (>> v)`, `n (<< v)`, `n (> v)`, `n (< v)` and `n (= v)`
/// the dependency is on `n` at version `v` with, in turn, at least, at
/// most, strictly above, strictly below, strictly above, strictly below and
/// exactly that version.
pub proof fn lemma_debian_relation_ops(n: Seq<char>, v: Seq<char>)
    requires
        clause_name_ok(n),
        clause_version_ok(v),
    ensures
        relation_of(n + " (>= "@ + v + ")"@) == (DepView { name: n, op: RelOp::GreaterEq, version: v, prereq: false }),
        relation_of(n + " (<= "@ + v + ")"@) == (DepView { name: n, op: RelOp::LessEq, version: v, prereq: false }),
        relation_of(n + " (>> "@ + v + ")"@) == (DepView { name: n, op: RelOp::Greater, version: v, prereq: false }),
        relation_of(n + " (<< "@ + v + ")"@) == (DepView { name: n, op: RelOp::Less, version: v, prereq: false }),
        relation_of(n + " (> "@ + v + ")"@) == (DepView { name: n, op: RelOp::Greater, version: v, prereq: false }),
        relation_of(n + " (< "@ + v + ")"@) == (DepView { name: n, op: RelOp::Less, version: v, prereq: false }),
        relation_of(n + " (= "@ + v + ")"@) == (DepView { name: n, op: RelOp::Eq, version: v, prereq: false }),
{
    lemma_debian_ge_le(n, v);
    lemma_debian_strict(n, v);
    lemma_debian_short(n, v);
}

proof fn lemma_debian_ge_le(n: Seq<char>, v: Seq<char>)
    requires
        clause_name_ok(n),
        clause_version_ok(v),
    ensures
        relation_of(n + " (>= "@ + v + ")"@) == (DepView { name: n, op: RelOp::GreaterEq, version: v, prereq: false }),
        relation_of(n + " (<= "@ + v + ")"@) == (DepView { name: n, op: RelOp::LessEq, version: v, prereq: false }),
{
    reveal_strlit(" (>= ");
    reveal_strlit(" (<= ");
    reveal_strlit(")");
    lemma_rel_ops_chars();
    let sp = seq![' '];
    let o = seq!['>', '='];
    assert(n + " (>= "@ + v + ")"@ =~= n + seq![' ', '('] + o + sp + v + seq![')']);
    lemma_debian_op(n, v, o, 0);
    let o = seq!['<', '='];
    let t = o + sp + v;
    assert(n + " (<= "@ + v + ")"@ =~= n + seq![' ', '('] + o + sp + v + seq![')']);
    assert(t[0] == '<');
    lemma_not_starts(t, rel_ops()[0], 0);
    lemma_debian_op(n, v, o, 1);
}

proof fn lemma_debian_strict(n: Seq<char>, v: Seq<char>)
    requires
        clause_name_ok(n),
        clause_version_ok(v),
    ensures
        relation_of(n + " (>> "@ + v + ")"@) == (DepView { name: n, op: RelOp::Greater, version: v, prereq: false }),
        relation_of(n + " (<< "@ + v + ")"@) == (DepView { name: n, op: RelOp::Less, version: v, prereq: false }),
{
    reveal_strlit(" (>> ");
    reveal_strlit(" (<< ");
    reveal_strlit(")");
    lemma_rel_ops_chars();
    let sp = seq![' '];
    let o = seq!['>', '>'];
    let t = o + sp + v;
    assert(n + " (>> "@ + v + ")"@ =~= n + seq![' ', '('] + o + sp + v + seq![')']);
    assert(t[0] == '>' && t[1] == '>');
    lemma_not_starts(t, rel_ops()[0], 1);
    lemma_not_starts(t, rel_ops()[1], 0);
    lemma_debian_op(n, v, o, 2);
    let o = seq!['<', '<'];
    let t = o + sp + v;
    assert(n + " (<< "@ + v + ")"@ =~= n + seq![' ', '('] + o + sp + v + seq![')']);
    assert(t[0] == '<' && t[1] == '<');
    lemma_not_starts(t, rel_ops()[0], 0);
    lemma_not_starts(t, rel_ops()[1], 1);
    lemma_not_starts(t, rel_ops()[2], 0);
    lemma_debian_op(n, v, o, 3);
}

proof fn lemma_debian_short(n: Seq<char>, v: Seq<char>)
    requires
        clause_name_ok(n),
        clause_version_ok(v),
    ensures
        relation_of(n + " (> "@ + v + ")"@) == (DepView { name: n, op: RelOp::Greater, version: v, prereq: false }),
        relation_of(n + " (< "@ + v + ")"@) == (DepView { name: n, op: RelOp::Less, version: v, prereq: false }),
        relation_of(n + " (= "@ + v + ")"@) == (DepView { name: n, op: RelOp::Eq, version: v, prereq: false }),
{
    reveal_strlit(" (> ");
    reveal_strlit(" (< ");
    reveal_strlit(" (= ");
    reveal_strlit(")");
    lemma_rel_ops_chars();
    let sp = seq![' '];
    let o = seq!['>'];
    let t = o + sp + v;
    assert(n + " (> "@ + v + ")"@ =~= n + seq![' ', '('] + o + sp + v + seq![')']);
    assert(t[0] == '>' && t[1] == ' ');
    lemma_not_starts(t, rel_ops()[0], 1);
    lemma_not_starts(t, rel_ops()[1], 0);
    lemma_not_starts(t, rel_ops()[2], 1);
    lemma_not_starts(t, rel_ops()[3], 0);
    lemma_debian_op(n, v, o, 4);
    let o = seq!['<'];
    let t = o + sp + v;
    assert(n + " (< "@ + v + ")"@ =~= n + seq![' ', '('] + o + sp + v + seq![')']);
    assert(t[0] == '<' && t[1] == ' ');
    lemma_not_starts(t, rel_ops()[0], 0);
    lemma_not_starts(t, rel_ops()[1], 1);
    lemma_not_starts(t, rel_ops()[2], 0);
    lemma_not_starts(t, rel_ops()[3], 1);
    lemma_not_starts(t, rel_ops()[4], 0);
    lemma_debian_op(n, v, o, 5);
    let o = seq!['='];
    let t = o + sp + v;
    assert(n + " (= "@ + v + ")"@ =~= n + seq![' ', '('] + o + sp + v + seq![')']);
    assert(t[0] == '=');
    lemma_not_starts(t, rel_ops()[0], 0);
    lemma_not_starts(t, rel_ops()[1], 0);
    lemma_not_starts(t, rel_ops()[2], 0);
    lemma_not_starts(t, rel_ops()[3], 0);
    lemma_not_starts(t, rel_ops()[4], 0);
    lemma_not_starts(t, rel_ops()[5], 0);
    lemma_debian_op(n, v, o, 6);
}

/// The characters relation operators are made of.
pub open spec fn op_char(c: char) -> bool {
    c == '<' || c == '>' || c == '='
}

/// Text with no operator character, `(` or `|`.
pub open spec fn bare_text(s: Seq<char>) -> bool {
    forall|j: int| 0 <= j < s.len() ==> !op_char(#[trigger] s[j]) && s[j] != '(' && s[j] != '|'
}

/// An operator made of operator characters only occurs in `x + o + y`
/// (with bare `x` and `y`) inside `o`.
proof fn lemma_occurs_in_op(x: Seq<char>, o: Seq<char>, y: Seq<char>, p: Seq<char>, j: int)
    requires
        bare_text(x),
        bare_text(y),
        p.len() > 0,
        forall|m: int| 0 <= m < p.len() ==> op_char(#[trigger] p[m]),
        occurs_at(x + o + y, p, j),
    ensures
        x.len() <= j,
        j + p.len() <= x.len() + o.len(),
        o.subrange(j - x.len(), j - x.len() + p.len()) == p,
{
    let c = x + o + y;
    assert(c.subrange(j, j + p.len()) == p);
    assert(c[j] == p[0]);
    assert(op_char(p[0]));
    if j < x.len() {
        assert(c[j] == x[j]);
    }
    let e = j + p.len() - 1;
    assert(c[e] == c.subrange(j, j + p.len())[p.len() - 1]);
    assert(op_char(p[p.len() - 1]));
    if e >= x.len() + o.len() {
        assert(c[e] == y[e - x.len() - o.len()]);
    }
    assert forall|m: int| 0 <= m < p.len() implies #[trigger] o.subrange(j - x.len(), j - x.len() + p.len())[m] == p[m] by {
        assert(c.subrange(j, j + p.len())[m] == c[j + m]);
        assert(c[j + m] == o[j - x.len() + m]);
    }
    assert(o.subrange(j - x.len(), j - x.len() + p.len()) =~= p);
}

/// Every operator is made of operator characters.
proof fn lemma_rel_ops_op_chars(i: int)
    requires
        0 <= i < 7,
    ensures
        rel_ops()[i].len() > 0,
        forall|m: int| 0 <= m < rel_ops()[i].len() ==> op_char(#[trigger] rel_ops()[i][m]),
{
    lemma_rel_ops_chars();
}

/// An operator that `o` does not contain does not occur in `x + o + y`.
proof fn lemma_op_absent(x: Seq<char>, o: Seq<char>, y: Seq<char>, i: int)
    requires
        bare_text(x),
        bare_text(y),
        0 <= i < 7,
        forall|s: int|
            0 <= s && s + rel_ops()[i].len() <= o.len() ==> #[trigger] o.subrange(s, s + rel_ops()[i].len())
                != rel_ops()[i],
    ensures
        find_str(x + o + y, rel_ops()[i]) < 0,
{
    let c = x + o + y;
    let p = rel_ops()[i];
    lemma_rel_ops_op_chars(i);
    assert forall|j: int| 0 <= j < c.len() implies !occurs_at(c, p, j) by {
        if occurs_at(c, p, j) {
            lemma_occurs_in_op(x, o, y, p, j);
            assert(o.subrange(j - x.len(), j - x.len() + p.len()) == p);
        }
    }
    crate::text::lemma_find_str(c, p, c.len() as int);
}

/// `o` (the operator at `k`) first occurs in `x + o + y` right after `x`.
proof fn lemma_op_found(x: Seq<char>, o: Seq<char>, y: Seq<char>, k: int)
    requires
        bare_text(x),
        bare_text(y),
        0 <= k < 7,
        o == rel_ops()[k],
    ensures
        find_str(x + o + y, o) == x.len(),
{
    let c = x + o + y;
    lemma_rel_ops_op_chars(k);
    assert forall|j: int| 0 <= j < x.len() implies !occurs_at(c, o, j) by {
        if occurs_at(c, o, j) {
            lemma_occurs_in_op(x, o, y, o, j);
        }
    }
    assert(c.subrange(x.len() as int, x.len() as int + o.len()) =~= o);
    crate::text::lemma_find_str(c, o, x.len() as int);
}

/// The operator search finds the one at `k` right after `x`.
proof fn lemma_find_op_at(x: Seq<char>, o: Seq<char>, y: Seq<char>, j: int, k: int)
    requires
        bare_text(x),
        bare_text(y),
        0 <= j <= k < 7,
        o == rel_ops()[k],
        forall|i: int, s: int|
            0 <= i < k && 0 <= s && s + rel_ops()[i].len() <= o.len() ==> #[trigger] o.subrange(
                s,
                s + rel_ops()[i].len(),
            ) != #[trigger] rel_ops()[i],
    ensures
        find_op_from(x + o + y, j) == Some((k, x.len() as int)),
    decreases k - j,
{
    if j < k {
        lemma_op_absent(x, o, y, j);
        lemma_find_op_at(x, o, y, j + 1, k);
    } else {
        lemma_op_found(x, o, y, k);
    }
}

/// A clause without parentheses, `x o y`, is read as `trim(x)` with the
/// operator `o` and version `trim(y)`.
proof fn lemma_bare_clause(x: Seq<char>, o: Seq<char>, y: Seq<char>, k: int)
    requires
        bare_text(x),
        bare_text(y),
        x.len() > 0,
        !is_ws(x[0]),
        y.len() > 0,
        !is_ws(y.last()),
        0 <= k < 7,
        o == rel_ops()[k],
        forall|i: int, s: int|
            0 <= i < k && 0 <= s && s + rel_ops()[i].len() <= o.len() ==> #[trigger] o.subrange(
                s,
                s + rel_ops()[i].len(),
            ) != #[trigger] rel_ops()[i],
    ensures
        relation_of(x + o + y) == relation_dep(trim(x), k, trim(y)),
{
    let c = x + o + y;
    lemma_rel_ops_chars();
    assert(o.len() > 0 && o.len() <= 2);
    assert forall|j: int| 0 <= j < o.len() implies op_char(#[trigger] o[j]) by {
        lemma_rel_ops_op_chars(k);
    }
    assert forall|j: int| 0 <= j < c.len() implies !in_class(#[trigger] c[j], false, seq!['|'])
        && !in_class(c[j], false, seq!['(']) by {
        lemma_single_class(c[j], '|');
        lemma_single_class(c[j], '(');
        if j < x.len() {
            assert(c[j] == x[j]);
        } else if j < x.len() + o.len() {
            assert(c[j] == o[j - x.len()]);
        } else {
            assert(c[j] == y[j - x.len() - o.len()]);
        }
    }
    lemma_find_class_none(c, false, seq!['|']);
    assert(c[0] == x[0]);
    assert(c.last() == y.last());
    lemma_trim_id(c);
    lemma_find_class_none(c, false, seq!['(']);
    lemma_find_op_at(x, o, y, 0, k);
    assert(c.take(x.len() as int) =~= x);
    assert(c.skip(x.len() as int + o.len()) =~= y);
}

/// Package names and versions as the RPM and pacman spellings carry them:
/// not blank-padded and without operator characters, `(` or `|`.
pub open spec fn bare_word(s: Seq<char>) -> bool {
    &&& s.len() > 0
    &&& !is_ws(s[0])
    &&& !is_ws(s.last())
    &&& bare_text(s)
}

/// Each operator in the RPM spelling `n o v` gives its comparison: `>=`
/// at least, `<=` at most, `>` strictly above, `<` strictly below, `=`
/// exactly `v`.
pub proof fn lemma_rpm_spelling_ops(n: Seq<char>, v: Seq<char>)
    requires
        bare_word(n),
        bare_word(v),
    ensures
        relation_of(n + " >= "@ + v) == (DepView { name: n, op: RelOp::GreaterEq, version: v, prereq: false }),
        relation_of(n + " <= "@ + v) == (DepView { name: n, op: RelOp::LessEq, version: v, prereq: false }),
        relation_of(n + " > "@ + v) == (DepView { name: n, op: RelOp::Greater, version: v, prereq: false }),
        relation_of(n + " < "@ + v) == (DepView { name: n, op: RelOp::Less, version: v, prereq: false }),
        relation_of(n + " = "@ + v) == (DepView { name: n, op: RelOp::Eq, version: v, prereq: false }),
{
    reveal_strlit(" >= ");
    reveal_strlit(" <= ");
    reveal_strlit(" > ");
    reveal_strlit(" < ");
    reveal_strlit(" = ");
    lemma_rel_ops_chars();
    let x = n + seq![' '];
    let y = seq![' '] + v;
    assert(bare_text(x)) by {
        assert forall|j: int| 0 <= j < x.len() implies !op_char(#[trigger] x[j]) && x[j] != '(' && x[j] != '|' by {
            if j < n.len() {
                assert(x[j] == n[j]);
            }
        }
    }
    assert(bare_text(y)) by {
        assert forall|j: int| 0 <= j < y.len() implies !op_char(#[trigger] y[j]) && y[j] != '(' && y[j] != '|' by {
            if j > 0 {
                assert(y[j] == v[j - 1]);
            }
        }
    }
    assert(x[0] == n[0]);
    assert(y.last() == v.last());
    lemma_trim_pad(n);
    lemma_trim_pad(v);
    lemma_bare_ops(x, y);
    assert(n + " >= "@ + v =~= x + rel_ops()[0] + y);
    assert(n + " <= "@ + v =~= x + rel_ops()[1] + y);
    assert(n + " > "@ + v =~= x + rel_ops()[4] + y);
    assert(n + " < "@ + v =~= x + rel_ops()[5] + y);
    assert(n + " = "@ + v =~= x + rel_ops()[6] + y);
}

/// Each operator in the pacman spelling `nov` gives its comparison: `>=`
/// at least, `<=` at most, `>` strictly above, `<` strictly below, `=`
/// exactly `v`.
pub proof fn lemma_pacman_spelling_ops(n: Seq<char>, v: Seq<char>)
    requires
        bare_word(n),
        bare_word(v),
    ensures
        relation_of(n + ">="@ + v) == (DepView { name: n, op: RelOp::GreaterEq, version: v, prereq: false }),
        relation_of(n + "<="@ + v) == (DepView { name: n, op: RelOp::LessEq, version: v, prereq: false }),
        relation_of(n + ">"@ + v) == (DepView { name: n, op: RelOp::Greater, version: v, prereq: false }),
        relation_of(n + "<"@ + v) == (DepView { name: n, op: RelOp::Less, version: v, prereq: false }),
        relation_of(n + "="@ + v) == (DepView { name: n, op: RelOp::Eq, version: v, prereq: false }),
{
    lemma_rel_ops_chars();
    lemma_trim_id(n);
    lemma_trim_id(v);
    lemma_bare_ops(n, v);
    reveal_strlit(">=");
    reveal_strlit("<=");
    reveal_strlit(">");
    reveal_strlit("<");
    reveal_strlit("=");
}

/// With bare `x` and `y`, the clauses `x o y` for `>=`, `<=`, `>`, `<`
/// and `=` are read with those operators.
proof fn lemma_bare_ops(x: Seq<char>, y: Seq<char>)
    requires
        bare_text(x),
        bare_text(y),
        x.len() > 0,
        !is_ws(x[0]),
        y.len() > 0,
        !is_ws(y.last()),
    ensures
        relation_of(x + rel_ops()[0] + y) == relation_dep(trim(x), 0, trim(y)),
        relation_of(x + rel_ops()[1] + y) == relation_dep(trim(x), 1, trim(y)),
        relation_of(x + rel_ops()[4] + y) == relation_dep(trim(x), 4, trim(y)),
        relation_of(x + rel_ops()[5] + y) == relation_dep(trim(x), 5, trim(y)),
        relation_of(x + rel_ops()[6] + y) == relation_dep(trim(x), 6, trim(y)),
{
    lemma_rel_ops_chars();
    let ops = rel_ops();
    assert forall|k: int, i: int, s: int|
        (k == 0 || k == 1 || k == 4 || k == 5 || k == 6) && 0 <= i < k && 0 <= s && s + ops[i].len()
            <= ops[k].len() implies #[trigger] ops[k].subrange(s, s + ops[i].len()) != #[trigger] ops[i]
        by {
        let o = ops[k];
        let p = ops[i];
        assert(o.subrange(s, s + p.len())[0] == o[s]);
        if o.subrange(s, s + p.len()) == p {
            assert(o[s] == p[0]);
            if p.len() == 2 {
                assert(o.subrange(s, s + p.len())[1] == o[s + 1]);
            }
        }
    }
    lemma_bare_clause(x, ops[0], y, 0);
    lemma_bare_clause(x, ops[1], y, 1);
    lemma_bare_clause(x, ops[4], y, 4);
    lemma_bare_clause(x, ops[5], y, 5);
    lemma_bare_clause(x, ops[6], y, 6);
}

/// The non-empty trimmed clauses of a comma-separated relation string.
pub open spec fn clauses_of(s: Seq<char>) -> Seq<Seq<char>> {
    non_empty(trim_all(split_class(s, false, seq![','])))
}

/// The dependencies of a comma-separated relation string.
pub open spec fn relation_list(s: Seq<char>) -> Seq<DepView> {
    clauses_of(s).map_values(|c: Seq<char>| relation_of(c))
}

/// `d` with the `PREREQ` flag.
pub open spec fn as_prereq(d: DepView) -> DepView {
    DepView { prereq: true, ..d }
}

/// `acc` extended by the `Pre-Depends` clauses, each as a `PREREQ`
/// requirement unless a requirement of that name is already there.
pub open spec fn add_prereqs(acc: Seq<DepView>, clauses: Seq<Seq<char>>) -> Seq<DepView>
    decreases clauses.len(),
{
    if clauses.len() == 0 {
        acc
    } else {
        let a = add_prereqs(acc, clauses.drop_last());
        let d = relation_of(clauses.last());
        if dep_names(a).contains(d.name) {
            a
        } else {
            a.push(as_prereq(d))
        }
    }
}

/// RPM relation fields parsed from the package config.
#[derive(Debug)]
pub struct RpmRelations {
    pub requirements: Vec<Dependency>,
    pub provides: Vec<Dependency>,
    pub conflicts: Vec<Dependency>,
    pub obsoletes: Vec<Dependency>,
    pub recommendations: Vec<Dependency>,
    pub suggests: Vec<Dependency>,
}

impl RpmRelations {
    /// A copy of `dep`, field by field.
    pub fn rebuild(dep: &Dependency) -> (r: Dependency)
        ensures
            r@ == dep@,
    {
        Dependency {
            name: dep.name.clone(),
            op: dep.op,
            version: dep.version.clone(),
            prereq: dep.prereq,
        }
    }
}

/// The operator at `k` in [`rel_ops`].
fn op_text(k: usize) -> (r: &'static str)
    requires
        k < 7,
    ensures
        r@ == rel_ops()[k as int],
{
    match k {
        0 => ">=",
        1 => "<=",
        2 => ">>",
        3 => "<<",
        4 => ">",
        5 => "<",
        _ => "=",
    }
}

fn op_kind(k: usize) -> (r: RelOp)
    ensures
        r == op_of_index(k as int),
{
    match k {
        0 => RelOp::GreaterEq,
        1 => RelOp::LessEq,
        2 | 4 => RelOp::Greater,
        3 | 5 => RelOp::Less,
        6 => RelOp::Eq,
        _ => RelOp::Any,
    }
}

/// `Dependency::any(name)`.
fn any_dependency(name: &[char]) -> (r: Dependency)
    ensures
        r@ == any_dep(name@),
{
    let v = String::new();
    Dependency { name: string_of(name), op: RelOp::Any, version: v, prereq: false }
}

/// The dependency on `name` with the operator at `k`.
fn relation_dependency(name: &[char], k: usize, version: &[char]) -> (r: Dependency)
    ensures
        r@ == relation_dep(name@, k as int, version@),
{
    let op = op_kind(k);
    if name.len() == 0 || op == RelOp::Any {
        return any_dependency(name);
    }
    Dependency { name: string_of(name), op, version: string_of(version), prereq: false }
}

/// Split a constraint body (`>= 1.2`, `<< 2.0`) into the index of its
/// operator and the trimmed version.
fn split_op(s: &[char]) -> (r: Option<(usize, &[char])>)
    ensures
        match r {
            Some((k, v)) => split_op_from(s@, 0) == Some((k as int, v@)),
            None => split_op_from(s@, 0) is None,
        },
{
    let mut k: usize = 0;
    while k < 7
        invariant
            k <= 7,
            split_op_from(s@, 0) == split_op_from(s@, k as int),
        decreases 7 - k,
    {
        let op = chars_of(op_text(k));
        if starts_with_exec(s, op.as_slice()) {
            let rest = trim_slice(vstd::slice::slice_subrange(s, op.len(), s.len()));
            return Some((k, rest));
        }
        k = k + 1;
    }
    None
}

/// Split a constraint body (`>= 1.2`, `<< 2.0`) into its operator and the
/// trimmed version.
pub fn split_relation_op(s: &str) -> (r: Option<(&'static str, String)>)
    ensures
        match r {
            Some((op, v)) => exists|k: int|
                split_op_from(s@, 0) == Some((k, v@)) && 0 <= k < 7 && op@ == rel_ops()[k],
            None => split_op_from(s@, 0) is None,
        },
{
    let v = chars_of(s);
    match split_op(v.as_slice()) {
        Some((k, rest)) => {
            proof {
                assert(split_op_from(s@, 0) == Some((k as int, rest@)));
                lemma_split_op_index(s@, 0);
            }
            Some((op_text(k), string_of(rest)))
        },
        None => None,
    }
}

proof fn lemma_split_op_index(s: Seq<char>, k: int)
    requires
        0 <= k,
    ensures
        split_op_from(s, k) matches Some((j, _)) ==> k <= j < 7,
    decreases 7 - k,
{
    if k < 7 && !starts_with(s, rel_ops()[k]) {
        lemma_split_op_index(s, k + 1);
    }
}

proof fn lemma_find_op_index(s: Seq<char>, k: int)
    requires
        0 <= k,
    ensures
        find_op_from(s, k) matches Some((j, i)) ==> k <= j < 7 && i == find_str(s, rel_ops()[j])
            && i >= 0,
    decreases 7 - k,
{
    if k < 7 && find_str(s, rel_ops()[k]) < 0 {
        lemma_find_op_index(s, k + 1);
    }
}

/// The first operator occurring in `c`, with its position.
fn find_op(c: &[char]) -> (r: Option<(usize, usize)>)
    ensures
        match r {
            Some((k, i)) => find_op_from(c@, 0) == Some((k as int, i as int)) && k < 7 && i
                + rel_ops()[k as int].len() <= c@.len(),
            None => find_op_from(c@, 0) is None,
        },
{
    let mut k: usize = 0;
    while k < 7
        invariant
            k <= 7,
            find_op_from(c@, 0) == find_op_from(c@, k as int),
        decreases 7 - k,
    {
        let op = chars_of(op_text(k));
        match find_exec(c, op.as_slice()) {
            Some(i) => {
                return Some((k, i));
            },
            None => {},
        }
        k = k + 1;
    }
    None
}

/// Parse one relation clause, accepting Debian (`name (>= 1.2)`), RPM
/// (`name >= 1.2`) and pacman (`name>=1.2`) spellings; of Debian
/// alternatives (`a | b`) only the first is kept.
pub fn parse_rpm_relation(clause: &[char]) -> (r: Dependency)
    ensures
        r@ == relation_of(clause@),
{
    let bar: Vec<char> = vec!['|'];
    assert(bar@ =~= seq!['|']);
    let c = trim_slice(before_class_exec(clause, bar.as_slice()));
    let open_paren: Vec<char> = vec!['('];
    assert(open_paren@ =~= seq!['(']);
    let p = find_class_from(c, 0, false, open_paren.as_slice());
    assert(c@.skip(0) =~= c@);
    if p < c.len() {
        let name = trim_slice(vstd::slice::slice_subrange(c, 0, p));
        let close_paren: Vec<char> = vec![')'];
        assert(close_paren@ =~= seq![')']);
        let tail = vstd::slice::slice_subrange(c, p, c.len());
        let inner = trim_slice(
            strip_end_slice(strip_start_slice(tail, false, open_paren.as_slice()), false, close_paren.as_slice()),
        );
        match split_op(inner) {
            Some((k, v)) => relation_dependency(name, k, v),
            None => any_dependency(name),
        }
    } else {
        match find_op(c) {
            Some((k, i)) => {
                proof {
                    lemma_find_op_index(c@, 0);
                }
                let name = trim_slice(vstd::slice::slice_subrange(c, 0, i));
                let n = op_text(k).unicode_len();
                let version = trim_slice(vstd::slice::slice_subrange(c, i + n, c.len()));
                relation_dependency(name, k, version)
            },
            None => any_dependency(c),
        }
    }
}

/// Parse a comma-separated relation string: each non-empty trimmed clause
/// becomes one dependency.
pub fn parse_list(s: &str) -> (r: Vec<Dependency>)
    ensures
        deps_view(r@) == relation_list(s@),
{
    let v = chars_of(s);
    let comma: Vec<char> = vec![','];
    assert(comma@ =~= seq![',']);
    let pieces = split_class_exec(v.as_slice(), false, comma.as_slice());
    let clauses = trimmed_non_empty(&pieces);
    let ghost cs = clauses.deep_view();
    let mut out: Vec<Dependency> = Vec::new();
    let mut i: usize = 0;
    while i < clauses.len()
        invariant
            i <= clauses.len(),
            cs == clauses.deep_view(),
            cs == clauses_of(s@),
            deps_view(out@) == cs.take(i as int).map_values(|c: Seq<char>| relation_of(c)),
        decreases clauses.len() - i,
    {
        let d = parse_rpm_relation(clauses[i].as_slice());
        assert(cs[i as int] == clauses@[i as int]@);
        let ghost before = out@;
        out.push(d);
        assert(deps_view(out@) =~= deps_view(before).push(relation_of(cs[i as int])));
        assert(cs.take(i + 1) =~= cs.take(i as int).push(cs[i as int]));
        assert(deps_view(out@) =~= cs.take(i + 1).map_values(|c: Seq<char>| relation_of(c)));
        i = i + 1;
    }
    assert(cs.take(cs.len() as int) =~= cs);
    out
}

/// Whether some dependency in `ds` is named `name`.
fn has_named(ds: &Vec<Dependency>, name: &String) -> (r: bool)
    ensures
        r == dep_names(deps_view(ds@)).contains(name@),
{
    let mut i: usize = 0;
    while i < ds.len()
        invariant
            i <= ds.len(),
            forall|j: int| 0 <= j < i ==> ds@[j].name@ != name@,
        decreases ds.len() - i,
    {
        if ds[i].name == *name {
            assert(dep_names(deps_view(ds@))[i as int] == name@);
            return true;
        }
        i = i + 1;
    }
    assert(!dep_names(deps_view(ds@)).contains(name@)) by {
        if dep_names(deps_view(ds@)).contains(name@) {
            let j = choose|j: int|
                0 <= j < dep_names(deps_view(ds@)).len() && dep_names(deps_view(ds@))[j] == name@;
            assert(ds@[j].name@ == name@);
        }
    }
    false
}

/// Parse the package config's relation strings into [`RpmRelations`].
///
/// Debian `Breaks` has no RPM equivalent and is folded into `Conflicts`;
/// `Pre-Depends` become `Requires` with the legacy `PREREQ` flag, skipping a
/// name that `depends` already requires.
pub fn parse_rpm_relations(
    depends: &str,
    recommended: &str,
    suggests: &str,
    conflicts: &str,
    replaces: &str,
    provides: &str,
    breaks: &str,
    predepends: &str,
) -> (r: RpmRelations)
    ensures
        deps_view(r.requirements@) == add_prereqs(relation_list(depends@), clauses_of(predepends@)),
        deps_view(r.recommendations@) == relation_list(recommended@),
        deps_view(r.suggests@) == relation_list(suggests@),
        deps_view(r.conflicts@) == relation_list(conflicts@) + relation_list(breaks@),
        deps_view(r.obsoletes@) == relation_list(replaces@),
        deps_view(r.provides@) == relation_list(provides@),
{
    let mut conflicts_v = parse_list(conflicts);
    let mut breaks_v = parse_list(breaks);
    let ghost c0 = conflicts_v@;
    let ghost b0 = breaks_v@;
    conflicts_v.append(&mut breaks_v);
    assert(deps_view(conflicts_v@) =~= deps_view(c0) + deps_view(b0));

    let mut reqs = parse_list(depends);
    let v = chars_of(predepends);
    let comma: Vec<char> = vec![','];
    assert(comma@ =~= seq![',']);
    let pieces = split_class_exec(v.as_slice(), false, comma.as_slice());
    let clauses = trimmed_non_empty(&pieces);
    let ghost cs = clauses.deep_view();
    let ghost base = deps_view(reqs@);
    let mut i: usize = 0;
    assert(cs.take(0) =~= Seq::<Seq<char>>::empty());
    while i < clauses.len()
        invariant
            i <= clauses.len(),
            cs == clauses.deep_view(),
            deps_view(reqs@) == add_prereqs(base, cs.take(i as int)),
        decreases clauses.len() - i,
    {
        assert(cs.take(i + 1).drop_last() =~= cs.take(i as int));
        assert(cs[i as int] == clauses@[i as int]@);
        let dep = parse_rpm_relation(clauses[i].as_slice());
        if !has_named(&reqs, &dep.name) {
            let ghost before = reqs@;
            reqs.push(
                Dependency { name: dep.name, op: dep.op, version: dep.version, prereq: true },
            );
            assert(deps_view(reqs@) =~= deps_view(before).push(as_prereq(relation_of(cs[i as int]))));
        }
        i = i + 1;
    }
    assert(cs.take(cs.len() as int) =~= cs);

    RpmRelations {
        requirements: reqs,
        recommendations: parse_list(recommended),
        suggests: parse_list(suggests),
        conflicts: conflicts_v,
        obsoletes: parse_list(replaces),
        provides: parse_list(provides),
    }
}

// ---------------------------------------------------------------------------
// Package header plan
// ---------------------------------------------------------------------------

/// An RPM scriptlet slot.
#[derive(PartialEq, Eq, Structural, Clone, Copy, Debug)]
pub enum ScriptKind {
    PreInstall,
    PostInstall,
    PreUninstall,
    PostUninstall,
    PreTrans,
    PostTrans,
    Verify,
}

/// An RPM relation header.
#[derive(PartialEq, Eq, Structural, Clone, Copy, Debug)]
pub enum RelKind {
    Requires,
    Provides,
    Conflicts,
    Obsoletes,
    Recommends,
    Suggests,
}

/// When an RPM trigger fires.
#[derive(PartialEq, Eq, Structural, Clone, Copy, Debug)]
pub enum TriggerKind {
    PreIn,
    In,
    Un,
    PostUn,
}

/// An RPM trigger: a script run when the named package is installed or
/// removed.
#[derive(Debug, Clone)]
pub struct RpmTrigger {
    /// Package name that fires the trigger.
    pub package: String,
    /// Script body to run when the trigger fires.
    pub script: String,
}

/// RPM header tag fields of a package.
#[derive(Debug, Clone, Copy)]
pub struct PackageMeta<'a> {
    pub name: &'a str,
    pub version: &'a str,
    pub release: &'a str,
    pub summary: &'a str,
    pub description: &'a str,
    pub license: &'a str,
    /// RPM `vendor` header tag.
    pub vendor: Option<&'a str>,
    /// RPM `packager` header tag.
    pub packager: Option<&'a str>,
}

/// Optional scriptlets, triggers, relations and header options.
#[derive(Debug)]
pub struct BuildOptions<'a> {
    pub pre_install: Option<&'a str>,
    pub post_install: Option<&'a str>,
    pub pre_uninstall: Option<&'a str>,
    pub post_uninstall: Option<&'a str>,
    pub pre_trans: Option<&'a str>,
    pub post_trans: Option<&'a str>,
    pub verify_script: Option<&'a str>,
    /// Armored secret key embedding a PGP signature, if set.
    pub sign_key_file: Option<&'a str>,
    /// Passphrase for the signing key, if any.
    pub sign_passphrase: Option<&'a str>,
    pub relations: RpmRelations,
    pub triggers: Vec<RpmTrigger>,
    /// Kind of each trigger, parallel to `triggers`.
    pub trigger_flags: Vec<TriggerKind>,
    /// Payload compression name (`gzip`, `xz`, `zstd`, ...); empty for the
    /// builder's default.
    pub compression: String,
    /// Auto-generate `Provides:` for the shared libraries installed.
    pub auto_provides: bool,
    /// Auto-generate `Requires:` from the libraries the payload needs.
    pub auto_requires: bool,
    /// rpmbuild-style macro definitions (reported as unsupported).
    pub defines: Vec<String>,
    /// Absolute installed paths marked `%config`.
    pub config_files: Vec<String>,
    /// Absolute installed paths marked `%config(noreplace)`.
    pub config_noreplace_files: Vec<String>,
    /// RPM epoch header tag.
    pub epoch: Option<u32>,
    /// `BuildHost:` override; empty for the default.
    pub buildhost: String,
}

/// One header setting applied to the package being built.
#[derive(Debug)]
pub enum RpmOp {
    Epoch(u32),
    BuildHost(String),
    /// Payload compression, applied when the builder knows the name.
    Compression(String),
    Script(ScriptKind, String),
    Relation(RelKind, Dependency),
    /// A trigger condition: a requirement on `package` with the trigger's
    /// flag.
    TriggerRequires(String, TriggerKind),
    Vendor(String),
    Packager(String),
}

/// The value of an [`RpmOp`].
pub enum OpView {
    Epoch(u32),
    BuildHost(Seq<char>),
    Compression(Seq<char>),
    Script(ScriptKind, Seq<char>),
    Relation(RelKind, DepView),
    TriggerRequires(Seq<char>, TriggerKind),
    Vendor(Seq<char>),
    Packager(Seq<char>),
}

impl View for RpmOp {
    type V = OpView;

    open spec fn view(&self) -> OpView {
        match self {
            RpmOp::Epoch(e) => OpView::Epoch(*e),
            RpmOp::BuildHost(h) => OpView::BuildHost(h@),
            RpmOp::Compression(c) => OpView::Compression(c@),
            RpmOp::Script(k, s) => OpView::Script(*k, s@),
            RpmOp::Relation(k, d) => OpView::Relation(*k, d@),
            RpmOp::TriggerRequires(p, k) => OpView::TriggerRequires(p@, *k),
            RpmOp::Vendor(v) => OpView::Vendor(v@),
            RpmOp::Packager(p) => OpView::Packager(p@),
        }
    }
}

/// The values of a plan.
pub open spec fn ops_view(ops: Seq<RpmOp>) -> Seq<OpView> {
    ops.map_values(|o: RpmOp| o@)
}

/// The text of an optional string slice.
pub open spec fn opt_text(o: Option<&str>) -> Option<Seq<char>> {
    match o {
        Some(s) => Some(s@),
        None => None,
    }
}

/// Epoch, build host and compression settings.
pub open spec fn meta_ops(epoch: Option<u32>, buildhost: Seq<char>, compression: Seq<char>) -> Seq<
    OpView,
> {
    (match epoch {
        Some(e) => seq![OpView::Epoch(e)],
        None => seq![],
    }) + (if trim(buildhost).len() > 0 {
        seq![OpView::BuildHost(buildhost)]
    } else {
        seq![]
    }) + (if compression.len() > 0 {
        seq![OpView::Compression(compression)]
    } else {
        seq![]
    })
}

/// Epoch / buildhost / compression header tags.
pub fn apply_meta_options(ops: &mut Vec<RpmOp>, opts: &BuildOptions)
    ensures
        ops_view(final(ops)@) == ops_view(old(ops)@) + meta_ops(
            opts.epoch,
            opts.buildhost@,
            opts.compression@,
        ),
{
    let ghost o = ops_view(ops@);
    let ghost mut added: Seq<OpView> = seq![];
    match opts.epoch {
        Some(e) => {
            ops.push(RpmOp::Epoch(e));
            proof {
                added = added.push(OpView::Epoch(e));
            }
        },
        None => {},
    }
    assert(ops_view(ops@) =~= o + added);
    let ghost a1 = added;
    if trim_slice(chars_of(opts.buildhost.as_str()).as_slice()).len() > 0 {
        ops.push(RpmOp::BuildHost(opts.buildhost.clone()));
        proof {
            added = added.push(OpView::BuildHost(opts.buildhost@));
        }
    }
    assert(ops_view(ops@) =~= o + added);
    let ghost a2 = added;
    if opts.compression.as_str().unicode_len() > 0 {
        ops.push(RpmOp::Compression(opts.compression.clone()));
        proof {
            added = added.push(OpView::Compression(opts.compression@));
        }
    }
    assert(ops_view(ops@) =~= o + added);
    assert(added =~= meta_ops(opts.epoch, opts.buildhost@, opts.compression@));
}

/// The scriptlet a slot gets: the trimmed body, unless absent or blank.
pub open spec fn script_op(kind: ScriptKind, body: Option<Seq<char>>) -> Seq<OpView> {
    match body {
        Some(b) => if trim(b).len() > 0 {
            seq![OpView::Script(kind, trim(b))]
        } else {
            seq![]
        },
        None => seq![],
    }
}

/// The seven scriptlets, in slot order.
pub open spec fn scriptlet_ops(opts: BuildOptions) -> Seq<OpView> {
    script_op(ScriptKind::PreInstall, opt_text(opts.pre_install)) + script_op(
        ScriptKind::PostInstall,
        opt_text(opts.post_install),
    ) + script_op(ScriptKind::PreUninstall, opt_text(opts.pre_uninstall)) + script_op(
        ScriptKind::PostUninstall,
        opt_text(opts.post_uninstall),
    ) + script_op(ScriptKind::PreTrans, opt_text(opts.pre_trans)) + script_op(
        ScriptKind::PostTrans,
        opt_text(opts.post_trans),
    ) + script_op(ScriptKind::Verify, opt_text(opts.verify_script))
}

fn push_script(ops: &mut Vec<RpmOp>, kind: ScriptKind, body: Option<&str>)
    ensures
        ops_view(final(ops)@) == ops_view(old(ops)@) + script_op(kind, opt_text(body)),
{
    let ghost o = ops_view(ops@);
    match body {
        Some(b) => {
            let v = chars_of(b);
            let t = trim_slice(v.as_slice());
            if t.len() > 0 {
                ops.push(RpmOp::Script(kind, string_of(t)));
                assert(ops_view(ops@) =~= o + seq![OpView::Script(kind, trim(b@))]);
            } else {
                assert(ops_view(ops@) =~= o + Seq::<OpView>::empty());
            }
        },
        None => {
            assert(ops_view(ops@) =~= o + Seq::<OpView>::empty());
        },
    }
}

/// The seven RPM scriptlets (`%pre`/`%post`/...), each skipped when blank.
pub fn apply_scriptlets(ops: &mut Vec<RpmOp>, opts: &BuildOptions)
    ensures
        ops_view(final(ops)@) == ops_view(old(ops)@) + scriptlet_ops(*opts),
{
    let ghost o = ops_view(ops@);
    push_script(ops, ScriptKind::PreInstall, opts.pre_install);
    push_script(ops, ScriptKind::PostInstall, opts.post_install);
    push_script(ops, ScriptKind::PreUninstall, opts.pre_uninstall);
    push_script(ops, ScriptKind::PostUninstall, opts.post_uninstall);
    push_script(ops, ScriptKind::PreTrans, opts.pre_trans);
    push_script(ops, ScriptKind::PostTrans, opts.post_trans);
    push_script(ops, ScriptKind::Verify, opts.verify_script);
    assert(ops_view(ops@) =~= o + scriptlet_ops(*opts));
}

/// The relation headers of one list.
pub open spec fn relation_ops(kind: RelKind, ds: Seq<Dependency>) -> Seq<OpView> {
    ds.map_values(|d: Dependency| OpView::Relation(kind, d@))
}

fn push_relations(ops: &mut Vec<RpmOp>, kind: RelKind, ds: &Vec<Dependency>)
    ensures
        ops_view(final(ops)@) == ops_view(old(ops)@) + relation_ops(kind, ds@),
{
    let ghost o = ops_view(ops@);
    let mut i: usize = 0;
    while i < ds.len()
        invariant
            i <= ds@.len(),
            ops_view(ops@) == o + relation_ops(kind, ds@.take(i as int)),
        decreases ds@.len() - i,
    {
        let ghost before = ops_view(ops@);
        ops.push(RpmOp::Relation(kind, RpmRelations::rebuild(&ds[i])));
        assert(ops_view(ops@) =~= before.push(OpView::Relation(kind, ds@[i as int]@)));
        assert(relation_ops(kind, ds@.take(i + 1)) =~= relation_ops(kind, ds@.take(i as int)).push(
            OpView::Relation(kind, ds@[i as int]@),
        ));
        i = i + 1;
    }
    assert(ds@.take(ds@.len() as int) =~= ds@);
}

/// Every relation list, in header order.
pub open spec fn all_relation_ops(rel: RpmRelations) -> Seq<OpView> {
    relation_ops(RelKind::Requires, rel.requirements@) + relation_ops(
        RelKind::Provides,
        rel.provides@,
    ) + relation_ops(RelKind::Conflicts, rel.conflicts@) + relation_ops(
        RelKind::Obsoletes,
        rel.obsoletes@,
    ) + relation_ops(RelKind::Recommends, rel.recommendations@) + relation_ops(
        RelKind::Suggests,
        rel.suggests@,
    )
}

/// Relation fields (requires, provides, conflicts, obsoletes, recommends,
/// suggests), each dependency copied.
pub fn apply_relations(ops: &mut Vec<RpmOp>, rel: &RpmRelations)
    ensures
        ops_view(final(ops)@) == ops_view(old(ops)@) + all_relation_ops(*rel),
{
    let ghost o = ops_view(ops@);
    push_relations(ops, RelKind::Requires, &rel.requirements);
    push_relations(ops, RelKind::Provides, &rel.provides);
    push_relations(ops, RelKind::Conflicts, &rel.conflicts);
    push_relations(ops, RelKind::Obsoletes, &rel.obsoletes);
    push_relations(ops, RelKind::Recommends, &rel.recommendations);
    push_relations(ops, RelKind::Suggests, &rel.suggests);
    assert(ops_view(ops@) =~= o + all_relation_ops(*rel));
}

/// The names added from `auto`, in order: each one neither in `exclude`
/// nor already seen (in `seen` or added before).
pub open spec fn added_names(exclude: Seq<Seq<char>>, seen: Seq<Seq<char>>, auto: Seq<Seq<char>>) -> Seq<
    Seq<char>,
>
    decreases auto.len(),
{
    if auto.len() == 0 {
        seq![]
    } else {
        let prev = added_names(exclude, seen, auto.drop_last());
        let n = auto.last();
        if !exclude.contains(n) && !seen.contains(n) && !prev.contains(n) {
            prev.push(n)
        } else {
            prev
        }
    }
}

/// The unconstrained relations on each name.
pub open spec fn any_ops(kind: RelKind, names: Seq<Seq<char>>) -> Seq<OpView> {
    names.map_values(|n: Seq<char>| OpView::Relation(kind, any_dep(n)))
}

/// The automatic relations: requirements on the needed libraries the
/// package neither provides explicitly nor already requires, then provides
/// for the shipped libraries not already provided.
pub open spec fn auto_relation_ops(opts: BuildOptions, auto_requires: Seq<Seq<char>>, auto_provides: Seq<Seq<char>>) -> Seq<
    OpView,
> {
    let provides = dep_names(deps_view(opts.relations.provides@));
    let required = dep_names(deps_view(opts.relations.requirements@));
    (if opts.auto_requires {
        any_ops(RelKind::Requires, added_names(provides, required, auto_requires))
    } else {
        seq![]
    }) + (if opts.auto_provides {
        any_ops(RelKind::Provides, added_names(seq![], provides, auto_provides))
    } else {
        seq![]
    })
}

/// The names of a list of dependencies.
fn names_of_deps(ds: &Vec<Dependency>) -> (r: Vec<String>)
    ensures
        r.deep_view() == dep_names(deps_view(ds@)),
{
    let mut out: Vec<String> = Vec::new();
    let mut i: usize = 0;
    while i < ds.len()
        invariant
            i <= ds@.len(),
            out.deep_view() == dep_names(deps_view(ds@.take(i as int))),
        decreases ds@.len() - i,
    {
        let ghost before = out.deep_view();
        out.push(ds[i].name.clone());
        assert(out.deep_view() =~= before.push(ds@[i as int].name@));
        assert(dep_names(deps_view(ds@.take(i + 1))) =~= dep_names(deps_view(ds@.take(i as int))).push(
            ds@[i as int].name@,
        ));
        i = i + 1;
    }
    assert(ds@.take(ds@.len() as int) =~= ds@);
    out
}

/// Push the unconstrained relations for the names of `auto` that are
/// neither excluded nor seen.
fn push_added(
    ops: &mut Vec<RpmOp>,
    kind: RelKind,
    exclude: &Vec<String>,
    seen: &Vec<String>,
    auto: &Vec<String>,
)
    ensures
        ops_view(final(ops)@) == ops_view(old(ops)@) + any_ops(
            kind,
            added_names(exclude.deep_view(), seen.deep_view(), auto.deep_view()),
        ),
{
    let ghost o = ops_view(ops@);
    let ghost av = auto.deep_view();
    let mut added: Vec<String> = Vec::new();
    let mut i: usize = 0;
    while i < auto.len()
        invariant
            i <= auto@.len(),
            av == auto.deep_view(),
            added.deep_view() == added_names(exclude.deep_view(), seen.deep_view(), av.take(i as int)),
            ops_view(ops@) == o + any_ops(kind, added.deep_view()),
        decreases auto@.len() - i,
    {
        assert(av.take(i + 1).drop_last() =~= av.take(i as int));
        assert(av[i as int] == auto@[i as int]@);
        let n = chars_of(auto[i].as_str());
        if !crate::sorted::holds(exclude, n.as_slice()) && !crate::sorted::holds(seen, n.as_slice())
            && !crate::sorted::holds(&added, n.as_slice()) {
            let ghost before_ops = ops_view(ops@);
            let ghost before_added = added.deep_view();
            added.push(auto[i].clone());
            ops.push(RpmOp::Relation(kind, any_dependency(n.as_slice())));
            assert(added.deep_view() =~= before_added.push(av[i as int]));
            assert(ops_view(ops@) =~= before_ops.push(OpView::Relation(kind, any_dep(av[i as int]))));
            assert(any_ops(kind, added.deep_view()) =~= any_ops(kind, before_added).push(
                OpView::Relation(kind, any_dep(av[i as int])),
            ));
        }
        i = i + 1;
    }
    assert(av.take(av.len() as int) =~= av);
}

/// Best-effort `--auto-requires` / `--auto-provides` from the libraries the
/// payload needs and ships (found by the caller's ELF scan).
pub fn apply_auto_relations(
    ops: &mut Vec<RpmOp>,
    opts: &BuildOptions,
    auto_requires: &Vec<String>,
    auto_provides: &Vec<String>,
)
    ensures
        ops_view(final(ops)@) == ops_view(old(ops)@) + auto_relation_ops(
            *opts,
            auto_requires.deep_view(),
            auto_provides.deep_view(),
        ),
{
    let ghost o = ops_view(ops@);
    if !(opts.auto_provides || opts.auto_requires) {
        assert(ops_view(ops@) =~= o + auto_relation_ops(
            *opts,
            auto_requires.deep_view(),
            auto_provides.deep_view(),
        ));
        return;
    }
    let provides = names_of_deps(&opts.relations.provides);
    let required = names_of_deps(&opts.relations.requirements);
    let none: Vec<String> = Vec::new();
    assert(none.deep_view() =~= Seq::<Seq<char>>::empty());
    if opts.auto_requires {
        push_added(ops, RelKind::Requires, &provides, &required, auto_requires);
    }
    let ghost mid = ops_view(ops@);
    if opts.auto_provides {
        push_added(ops, RelKind::Provides, &none, &provides, auto_provides);
    }
    assert(ops_view(ops@) =~= o + auto_relation_ops(
        *opts,
        auto_requires.deep_view(),
        auto_provides.deep_view(),
    ));
}

/// The headers the triggers add: for each trigger paired with a flag, a
/// requirement on its package, then its trimmed script (unless blank) as a
/// post-install scriptlet.
pub open spec fn trigger_ops(ts: Seq<RpmTrigger>, flags: Seq<TriggerKind>) -> Seq<OpView>
    decreases ts.len(),
{
    if ts.len() == 0 || flags.len() == 0 {
        seq![]
    } else {
        let n = if ts.len() < flags.len() {
            ts.len()
        } else {
            flags.len()
        };
        let t = ts[n - 1];
        trigger_ops(ts.take(n - 1), flags.take(n - 1)) + seq![
            OpView::TriggerRequires(t.package@, flags[n - 1]),
        ] + (if trim(t.script@).len() > 0 {
            seq![OpView::Script(ScriptKind::PostInstall, trim(t.script@))]
        } else {
            seq![]
        })
    }
}

/// Trigger dependencies, each followed by its script as a best-effort
/// post-install scriptlet.
pub fn apply_triggers(ops: &mut Vec<RpmOp>, opts: &BuildOptions)
    ensures
        ops_view(final(ops)@) == ops_view(old(ops)@) + trigger_ops(
            opts.triggers@,
            opts.trigger_flags@,
        ),
{
    let ghost o = ops_view(ops@);
    let ts = &opts.triggers;
    let fs = &opts.trigger_flags;
    let n = if ts.len() < fs.len() {
        ts.len()
    } else {
        fs.len()
    };
    let mut i: usize = 0;
    assert(ts@.take(0) =~= Seq::<RpmTrigger>::empty());
    while i < n
        invariant
            n <= ts@.len(),
            n <= fs@.len(),
            i <= n,
            ops_view(ops@) == o + trigger_ops(ts@.take(i as int), fs@.take(i as int)),
        decreases n - i,
    {
        let ghost before = ops_view(ops@);
        let t = &ts[i];
        ops.push(RpmOp::TriggerRequires(t.package.clone(), fs[i]));
        let sv = chars_of(t.script.as_str());
        let st = trim_slice(sv.as_slice());
        if st.len() > 0 {
            ops.push(RpmOp::Script(ScriptKind::PostInstall, string_of(st)));
            assert(ops_view(ops@) =~= before + seq![
                OpView::TriggerRequires(t.package@, fs@[i as int]),
                OpView::Script(ScriptKind::PostInstall, trim(t.script@)),
            ]);
        } else {
            assert(ops_view(ops@) =~= before + seq![
                OpView::TriggerRequires(t.package@, fs@[i as int]),
            ]);
        }
        let ghost tt = ts@.take(i + 1);
        let ghost ff = fs@.take(i + 1);
        assert(tt.take(i as int) =~= ts@.take(i as int));
        assert(ff.take(i as int) =~= fs@.take(i as int));
        assert(tt[i as int] == ts@[i as int]);
        assert(ff[i as int] == fs@[i as int]);
        assert(ops_view(ops@) =~= o + trigger_ops(tt, ff));
        i = i + 1;
    }
    proof {
        lemma_trigger_ops_prefix(ts@, fs@);
    }
}

/// The trigger headers only depend on the paired prefix of both lists.
proof fn lemma_trigger_ops_prefix(ts: Seq<RpmTrigger>, fs: Seq<TriggerKind>)
    ensures
        ({
            let n = if ts.len() < fs.len() {
                ts.len()
            } else {
                fs.len()
            };
            trigger_ops(ts, fs) == trigger_ops(ts.take(n as int), fs.take(n as int))
        }),
{
    let n = if ts.len() < fs.len() {
        ts.len()
    } else {
        fs.len()
    };
    let a = ts.take(n as int);
    let b = fs.take(n as int);
    if n > 0 {
        assert(a.take(n - 1) =~= ts.take(n - 1));
        assert(b.take(n - 1) =~= fs.take(n - 1));
        assert(a[n - 1] == ts[n - 1]);
        assert(b[n - 1] == fs[n - 1]);
    }
}

/// The vendor and packager tags, each when set and not blank.
pub open spec fn vendor_ops(vendor: Option<Seq<char>>, packager: Option<Seq<char>>) -> Seq<OpView> {
    (match vendor {
        Some(v) => if trim(v).len() > 0 {
            seq![OpView::Vendor(v)]
        } else {
            seq![]
        },
        None => seq![],
    }) + (match packager {
        Some(p) => if trim(p).len() > 0 {
            seq![OpView::Packager(p)]
        } else {
            seq![]
        },
        None => seq![],
    })
}

/// Vendor and packager header tags when present.
pub fn apply_vendor_packager(ops: &mut Vec<RpmOp>, meta: &PackageMeta)
    ensures
        ops_view(final(ops)@) == ops_view(old(ops)@) + vendor_ops(
            opt_text(meta.vendor),
            opt_text(meta.packager),
        ),
{
    let ghost o = ops_view(ops@);
    let ghost mut added: Seq<OpView> = seq![];
    match meta.vendor {
        Some(v) => {
            if trim_slice(chars_of(v).as_slice()).len() > 0 {
                ops.push(RpmOp::Vendor(String::from_str(v)));
                proof {
                    added = added.push(OpView::Vendor(v@));
                }
            }
        },
        None => {},
    }
    assert(ops_view(ops@) =~= o + added);
    let ghost a1 = added;
    match meta.packager {
        Some(p) => {
            if trim_slice(chars_of(p).as_slice()).len() > 0 {
                ops.push(RpmOp::Packager(String::from_str(p)));
                proof {
                    added = added.push(OpView::Packager(p@));
                }
            }
        },
        None => {},
    }
    assert(ops_view(ops@) =~= o + added);
    assert(added =~= vendor_ops(opt_text(meta.vendor), opt_text(meta.packager)));
}

// ---------------------------------------------------------------------------
// RPM header layout
// ---------------------------------------------------------------------------

/// Every RPM header opens with a 16-byte index header.
pub const RPM_INDEX_HEADER_LEN: usize = 16;
/// Every RPM index entry is 16 bytes.
pub const RPM_INDEX_ENTRY_LEN: usize = 16;

/// The big-endian `u32` at `off`.
pub open spec fn be32(s: Seq<u8>, off: int) -> nat {
    (s[off] as nat) * 16777216 + (s[off + 1] as nat) * 65536 + (s[off + 2] as nat) * 256 + (s[off
        + 3] as nat)
}

/// The fixed-size prefix of an RPM header.
#[derive(Debug, Clone, Copy, PartialEq, Eq, Structural)]
pub struct RpmIndexHeader {
    pub num_entries: u32,
    pub data_len: u32,
}

impl RpmIndexHeader {
    /// Byte offset of the data store, relative to the header start.
    pub fn store_offset(&self) -> (r: u64)
        ensures
            r == 16 + 16 * (self.num_entries as int),
    {
        16 + (self.num_entries as u64) * 16
    }

    /// On-disk length of the whole header (index header, entries, store).
    pub fn total_len(&self) -> (r: u64)
        ensures
            r == 16 + 16 * (self.num_entries as int) + self.data_len as int,
    {
        self.store_offset() + self.data_len as u64
    }
}

/// Why an RPM header could not be read.
#[derive(Debug, Clone, Copy, PartialEq, Eq, Structural)]
pub enum RpmHeaderError {
    /// Fewer than 16 bytes.
    Truncated,
    /// The magic and version bytes are not `8e ad e8 01`.
    BadMagic,
}

/// The big-endian `u32` at `off` of `s`.
fn read_be32(s: &[u8], off: usize) -> (r: u32)
    requires
        off + 4 <= s@.len(),
    ensures
        r == be32(s@, off as int),
{
    let a = s[off] as u32;
    let b = s[off + 1] as u32;
    let c = s[off + 2] as u32;
    let d = s[off + 3] as u32;
    a * 16777216 + b * 65536 + c * 256 + d
}

/// Read the 16-byte index header at the start of `slice`: magic `8e ad
/// e8 01`, four reserved bytes, then the entry count and the data length,
/// big-endian.
pub fn parse_rpm_index_header(slice: &[u8]) -> (r: Result<RpmIndexHeader, RpmHeaderError>)
    ensures
        match r {
            Ok(h) => slice@.len() >= 16 && slice@[0] == 0x8e && slice@[1] == 0xad && slice@[2]
                == 0xe8 && slice@[3] == 0x01 && h.num_entries == be32(slice@, 8) && h.data_len
                == be32(slice@, 12),
            Err(RpmHeaderError::Truncated) => slice@.len() < 16,
            Err(RpmHeaderError::BadMagic) => slice@.len() >= 16 && !(slice@[0] == 0x8e
                && slice@[1] == 0xad && slice@[2] == 0xe8 && slice@[3] == 0x01),
        },
{
    if slice.len() < RPM_INDEX_HEADER_LEN {
        return Err(RpmHeaderError::Truncated);
    }
    if !(slice[0] == 0x8e && slice[1] == 0xad && slice[2] == 0xe8 && slice[3] == 0x01) {
        return Err(RpmHeaderError::BadMagic);
    }
    Ok(RpmIndexHeader { num_entries: read_be32(slice, 8), data_len: read_be32(slice, 12) })
}

// ---------------------------------------------------------------------------
// Per-file languages: rewriting the main header's RPMTAG_FILELANGS
// ---------------------------------------------------------------------------

/// Fixed RPM lead length preceding the signature header.
pub const RPM_LEAD_LEN: usize = 96;
/// `RPMTAG_FILELANGS`.
pub const RPMTAG_FILELANGS: u32 = 1097;
/// `RPMTAG_HEADERIMMUTABLE`: the header's region descriptor.
pub const RPMTAG_HEADERIMMUTABLE: u32 = 63;

/// Why the per-file languages could not be written into a package.
#[derive(Debug, Clone, Copy, PartialEq, Eq, Structural)]
pub enum FileLangsError {
    /// The file cannot hold a lead and a header.
    TooShort,
    /// A header does not start as RPM headers do.
    Header(RpmHeaderError),
    /// The file ends before the main header.
    TruncatedBeforeMain,
    /// The main header runs past the end of the file.
    MainPastEnd,
    /// The main header has no `RPMTAG_FILELANGS` entry.
    NoFileLangs,
    /// The main header has no region descriptor.
    NoRegion,
    /// The region descriptor's offset is negative.
    NegativeDescriptor,
    /// The region descriptor runs past the data store.
    DescriptorPastStore,
    /// The region descriptor is not the store's last entry.
    DescriptorNotLast,
    /// The rewritten store is too large for a header.
    StoreTooLarge,
}

/// What the index header at the start of `s` says: its entry count and
/// data length.
pub open spec fn header_fields(s: Seq<u8>) -> Result<(nat, nat), RpmHeaderError> {
    if s.len() < 16 {
        Err(RpmHeaderError::Truncated)
    } else if !(s[0] == 0x8e && s[1] == 0xad && s[2] == 0xe8 && s[3] == 0x01) {
        Err(RpmHeaderError::BadMagic)
    } else {
        Ok((be32(s, 8), be32(s, 12)))
    }
}

/// The four big-endian bytes of `v` (below 2^32).
pub open spec fn be_bytes(v: nat) -> Seq<u8> {
    seq![
        (v / 16777216) as u8,
        ((v / 65536) % 256) as u8,
        ((v / 256) % 256) as u8,
        (v % 256) as u8,
    ]
}

/// `s` with the big-endian `v` written at `at`.
pub open spec fn put_be32(s: Seq<u8>, at: int, v: nat) -> Seq<u8> {
    s.take(at) + be_bytes(v) + s.skip(at + 4)
}

/// The byte offset of the last index entry (of the first `n`) whose tag is
/// `tag`, or -1.
pub open spec fn last_entry_with_tag(h: Seq<u8>, n: nat, tag: nat) -> int
    decreases n,
{
    if n == 0 {
        -1
    } else if be32(h, 16 + 16 * (n - 1)) == tag {
        16 + 16 * (n - 1)
    } else {
        last_entry_with_tag(h, (n - 1) as nat, tag)
    }
}

/// The language strings as the header stores them: each in UTF-8 followed
/// by a NUL.
pub open spec fn lang_bytes(langs: Seq<Seq<char>>) -> Seq<u8>
    decreases langs.len(),
{
    if langs.len() == 0 {
        Seq::empty()
    } else {
        lang_bytes(langs.drop_last()) + vstd::utf8::encode_utf8(langs.last()) + seq![0u8]
    }
}

/// The rewritten main header, given the header, its entry count, the
/// entries of `FILELANGS` and of the region descriptor, the descriptor's
/// offset and the languages.
pub open spec fn rewritten_header(
    header: Seq<u8>,
    n: nat,
    fl: int,
    rg: int,
    d: nat,
    langs: Seq<Seq<char>>,
) -> Seq<u8> {
    let so: int = (16 + 16 * n) as int;
    let store = header.skip(so);
    let lb = lang_bytes(langs);
    let new_store = store.take(d as int) + lb + store.subrange(d as int, d + 16int);
    let h1 = put_be32(header, fl + 8, d);
    let h2 = put_be32(h1, fl + 12, (langs.len() as u32) as nat);
    let h3 = put_be32(h2, rg + 8, d + lb.len());
    let h4 = put_be32(h3, 12, new_store.len());
    h4.take(so) + new_store
}

/// Where the main header of a package lies: its start, entry count and
/// data length, after the 96-byte lead and the signature header (padded to
/// 8 bytes).
#[verifier::opaque]
pub open spec fn main_header_at(bytes: Seq<u8>) -> Result<(int, nat, nat), FileLangsError> {
    if bytes.len() < 112 {
        Err(FileLangsError::TooShort)
    } else {
        match header_fields(bytes.skip(96)) {
            Err(e) => Err(FileLangsError::Header(e)),
            Ok((sn, sd)) => {
                let main_start: int = 96 + 16 + 16 * sn + sd + (8 - sd % 8) % 8;
                if main_start + 16 > bytes.len() {
                    Err(FileLangsError::TruncatedBeforeMain)
                } else {
                    match header_fields(bytes.skip(main_start)) {
                        Err(e) => Err(FileLangsError::Header(e)),
                        Ok((mn, md)) => if main_start + 16 + 16 * mn + md > bytes.len() {
                            Err(FileLangsError::MainPastEnd)
                        } else {
                            Ok((main_start, mn, md))
                        },
                    }
                }
            },
        }
    }
}

/// Where a main header of `n` entries keeps what the languages need: its
/// `FILELANGS` entry, its region descriptor entry, and the descriptor's
/// offset in the data store, whose last 16 bytes the descriptor must be.
#[verifier::opaque]
pub open spec fn header_layout(header: Seq<u8>, n: nat) -> Result<(int, int, nat), FileLangsError> {
    let so: int = (16 + 16 * n) as int;
    let store = header.skip(so);
    let fl = last_entry_with_tag(header, n, 1097);
    let rg = last_entry_with_tag(header, n, 63);
    if fl < 0 {
        Err(FileLangsError::NoFileLangs)
    } else if rg < 0 {
        Err(FileLangsError::NoRegion)
    } else {
        let d = be32(header, rg + 8);
        if d >= 0x8000_0000 {
            Err(FileLangsError::NegativeDescriptor)
        } else if d + 16 > store.len() {
            Err(FileLangsError::DescriptorPastStore)
        } else if d + 16 != store.len() {
            Err(FileLangsError::DescriptorNotLast)
        } else {
            Ok((fl, rg, d))
        }
    }
}

/// The main header with the languages written in, or why it cannot be.
pub open spec fn header_with_langs(header: Seq<u8>, n: nat, langs: Seq<Seq<char>>) -> Result<
    Seq<u8>,
    FileLangsError,
> {
    match header_layout(header, n) {
        Err(e) => Err(e),
        Ok((fl, rg, d)) => if d + lang_bytes(langs).len() > 0x7fff_ffff {
            Err(FileLangsError::StoreTooLarge)
        } else {
            Ok(rewritten_header(header, n, fl, rg, d, langs))
        },
    }
}

/// A built package with its per-file languages written in: the language
/// strings go to the end of the main header's data store, just before the
/// region descriptor (which stays last); the `FILELANGS` entry points at
/// them; the descriptor's offset and the store's length are updated. Also
/// gives the SHA-256 (lower-case hex) of the rewritten header. Fails when the
/// package is not laid out as that needs.
pub open spec fn with_file_langs(bytes: Seq<u8>, langs: Seq<Seq<char>>) -> Result<
    (Seq<u8>, Seq<char>),
    FileLangsError,
> {
    match main_header_at(bytes) {
        Err(e) => Err(e),
        Ok((ms, mn, md)) => {
            let ml: int = (16 + 16 * mn + md) as int;
            match header_with_langs(bytes.subrange(ms, ms + ml), mn, langs) {
                Err(e) => Err(e),
                Ok(h) => Ok(
                    (bytes.take(ms) + h + bytes.skip(ms + ml), hex_lower(sha256_digest(h))),
                ),
            }
        },
    }
}

/// Writes the big-endian `v` at `at`.
fn put_be32_exec(h: &mut Vec<u8>, at: usize, v: u32)
    requires
        at + 4 <= old(h)@.len(),
    ensures
        final(h)@ == put_be32(old(h)@, at as int, v as nat),
{
    let hl = h.len();
    let ghost o = h@;
    let a1 = at + 1;
    let a2 = at + 2;
    let a3 = at + 3;
    h.set(at, (v / 16777216) as u8);
    h.set(a1, ((v / 65536) % 256) as u8);
    h.set(a2, ((v / 256) % 256) as u8);
    h.set(a3, (v % 256) as u8);
    assert(h@ =~= put_be32(o, at as int, v as nat));
}

/// Appends the bytes of `s`.
fn append_bytes(out: &mut Vec<u8>, s: &[u8])
    ensures
        final(out)@ == old(out)@ + s@,
{
    let ghost start = out@;
    let mut i: usize = 0;
    while i < s.len()
        invariant
            i <= s@.len(),
            out@ == start + s@.take(i as int),
        decreases s.len() - i,
    {
        out.push(s[i]);
        assert(out@ =~= start + s@.take(i + 1));
        i = i + 1;
    }
    assert(s@.take(s@.len() as int) =~= s@);
}

/// Finds the last index entry (of the first `n`) with tag `tag`.
fn find_last_tag(h: &[u8], n: u32, tag: u32) -> (r: Option<usize>)
    requires
        16 + 16 * (n as int) <= h@.len(),
    ensures
        match r {
            Some(e) => last_entry_with_tag(h@, n as nat, tag as nat) == e && e + 16 <= 16 + 16 * (n as int),
            None => last_entry_with_tag(h@, n as nat, tag as nat) == -1,
        },
{
    let hl = h.len();
    let mut k: u32 = n;
    while k > 0
        invariant
            k <= n,
            hl == h@.len(),
            16 + 16 * (n as int) <= h@.len(),
            last_entry_with_tag(h@, n as nat, tag as nat) == last_entry_with_tag(h@, k as nat, tag as nat),
        decreases k,
    {
        let e = 16 + 16 * ((k - 1) as usize);
        if read_be32(h, e) == tag {
            return Some(e);
        }
        k = k - 1;
    }
    None
}

/// Locates the main header of a package.
fn locate_main_header(bytes: &Vec<u8>) -> (r: Result<(usize, RpmIndexHeader), FileLangsError>)
    ensures
        match r {
            Ok((ms, h)) => main_header_at(bytes@) == Ok::<(int, nat, nat), FileLangsError>(
                (ms as int, h.num_entries as nat, h.data_len as nat),
            ),
            Err(e) => main_header_at(bytes@) == Err::<(int, nat, nat), FileLangsError>(e),
        },
{
    reveal(main_header_at);
    let len = bytes.len();
    if len < 112 {
        return Err(FileLangsError::TooShort);
    }
    let sig_slice = vstd::slice::slice_subrange(bytes.as_slice(), 96, len);
    assert(sig_slice@ =~= bytes@.skip(96));
    let sig = match parse_rpm_index_header(sig_slice) {
        Ok(h) => h,
        Err(e) => {
            return Err(FileLangsError::Header(e));
        },
    };
    let sd = sig.data_len as u64;
    let main_start64: u64 = 96 + sig.total_len() + (8 - sd % 8) % 8;
    if main_start64 + 16 > len as u64 {
        return Err(FileLangsError::TruncatedBeforeMain);
    }
    let main_start = main_start64 as usize;
    let main_slice = vstd::slice::slice_subrange(bytes.as_slice(), main_start, len);
    assert(main_slice@ =~= bytes@.skip(main_start as int));
    let main = match parse_rpm_index_header(main_slice) {
        Ok(h) => h,
        Err(e) => {
            return Err(FileLangsError::Header(e));
        },
    };
    if main_start64 + main.total_len() > len as u64 {
        return Err(FileLangsError::MainPastEnd);
    }
    Ok((main_start, main))
}

/// The language strings, each in UTF-8 followed by a NUL.
fn lang_bytes_exec(langs: &Vec<String>) -> (r: Vec<u8>)
    ensures
        r@ == lang_bytes(langs.deep_view()),
{
    let mut lb: Vec<u8> = Vec::new();
    let ghost lv = langs.deep_view();
    let mut i: usize = 0;
    assert(lv.take(0) =~= Seq::<Seq<char>>::empty());
    while i < langs.len()
        invariant
            i <= langs.len(),
            lv == langs.deep_view(),
            lb@ == lang_bytes(lv.take(i as int)),
        decreases langs.len() - i,
    {
        assert(lv.take(i + 1).drop_last() =~= lv.take(i as int));
        assert(lv.take(i + 1).last() == langs@[i as int]@);
        append_bytes(&mut lb, langs[i].as_str().as_bytes());
        lb.push(0u8);
        i = i + 1;
    }
    assert(lv.take(langs.len() as int) =~= lv);
    lb
}

/// Checks the layout a main header of `n` entries needs.
fn check_header_layout(header: &Vec<u8>, n: u32) -> (r: Result<(usize, usize, u32), FileLangsError>)
    requires
        16 + 16 * (n as int) <= header@.len(),
    ensures
        match r {
            Ok((fl, rg, d)) => header_layout(header@, n as nat) == Ok::<(int, int, nat), FileLangsError>((fl as int, rg as int, d as nat))
                && fl + 16 <= 16 + 16 * (n as int) && rg + 16 <= 16 + 16 * (n as int),
            Err(e) => header_layout(header@, n as nat) == Err::<(int, int, nat), FileLangsError>(e),
        },
{
    reveal(header_layout);
    let hl = header.len();
    let so: usize = 16 + 16 * (n as usize);
    let fl = match find_last_tag(header.as_slice(), n, RPMTAG_FILELANGS) {
        Some(e) => e,
        None => {
            return Err(FileLangsError::NoFileLangs);
        },
    };
    let rg = match find_last_tag(header.as_slice(), n, RPMTAG_HEADERIMMUTABLE) {
        Some(e) => e,
        None => {
            return Err(FileLangsError::NoRegion);
        },
    };
    let d = read_be32(header.as_slice(), rg + 8);
    if d >= 0x8000_0000 {
        return Err(FileLangsError::NegativeDescriptor);
    }
    let store_len = hl - so;
    let d_us = d as usize;
    if d_us + 16 > store_len {
        return Err(FileLangsError::DescriptorPastStore);
    }
    if d_us + 16 != store_len {
        return Err(FileLangsError::DescriptorNotLast);
    }
    Ok((fl, rg, d))
}

/// Writes the languages into a main header of `n` entries.
fn rewrite_header(header: Vec<u8>, n: u32, langs: &Vec<String>) -> (r: Result<Vec<u8>, FileLangsError>)
    requires
        16 + 16 * (n as int) <= header@.len(),
    ensures
        match r {
            Ok(h) => header_with_langs(header@, n as nat, langs.deep_view()) == Ok::<Seq<u8>, FileLangsError>(h@),
            Err(e) => header_with_langs(header@, n as nat, langs.deep_view()) == Err::<Seq<u8>, FileLangsError>(e),
        },
{
    let (fl, rg, d) = match check_header_layout(&header, n) {
        Ok(x) => x,
        Err(e) => {
            return Err(e);
        },
    };
    proof {
        reveal(header_layout);
    }
    let mut header = header;
    let ghost hv = header@;
    let hl = header.len();
    let so: usize = 16 + 16 * (n as usize);
    let d_us = d as usize;
    let lb = lang_bytes_exec(langs);
    if lb.len() > 0x7fff_ffff - d_us {
        return Err(FileLangsError::StoreTooLarge);
    }
    let new_descriptor = (d_us + lb.len()) as u32;
    let mut new_store = vstd::slice::slice_to_vec(vstd::slice::slice_subrange(header.as_slice(), so, so + d_us));
    append_bytes(&mut new_store, lb.as_slice());
    append_bytes(&mut new_store, vstd::slice::slice_subrange(header.as_slice(), so + d_us, so + d_us + 16));
    let ghost ns = new_store@;
    proof {
        let store = hv.skip(so as int);
        assert(hv.subrange(so as int, so + d_us) =~= store.take(d as int));
        assert(hv.subrange(so + d_us, so + d_us + 16) =~= store.subrange(d as int, d + 16int));
        assert(ns == store.take(d as int) + lang_bytes(langs.deep_view()) + store.subrange(d as int, d + 16int));
    }
    let count = #[verifier::truncate] (langs.len() as u32);
    let ns_len = new_store.len() as u32;
    put_be32_exec(&mut header, fl + 8, d);
    put_be32_exec(&mut header, fl + 12, count);
    put_be32_exec(&mut header, rg + 8, new_descriptor);
    put_be32_exec(&mut header, 12, ns_len);
    let mut new_header = vstd::slice::slice_to_vec(vstd::slice::slice_subrange(header.as_slice(), 0, so));
    append_bytes(&mut new_header, new_store.as_slice());
    proof {
        assert(header@.subrange(0, so as int) =~= header@.take(so as int));
    }
    Ok(new_header)
}

/// Writes `langs` as the package's per-file languages (the `rpm` builder
/// leaves every slot empty), returning the new package bytes and the
/// SHA-256 (lower-case hex) of the rewritten main header.
pub fn inject_file_langs(bytes: &Vec<u8>, langs: &Vec<String>) -> (r: Result<(Vec<u8>, String), FileLangsError>)
    ensures
        match r {
            Ok((out, sha)) => with_file_langs(bytes@, langs.deep_view()) == Ok::<(Seq<u8>, Seq<char>), FileLangsError>((out@, sha@)),
            Err(e) => with_file_langs(bytes@, langs.deep_view()) == Err::<(Seq<u8>, Seq<char>), FileLangsError>(e),
        },
{
    let (main_start, main) = match locate_main_header(bytes) {
        Ok(x) => x,
        Err(e) => {
            return Err(e);
        },
    };
    let len = bytes.len();
    proof {
        reveal(main_header_at);
    }
    let main_len = main.total_len() as usize;
    let header = vstd::slice::slice_to_vec(
        vstd::slice::slice_subrange(bytes.as_slice(), main_start, main_start + main_len),
    );
    assert(header@ =~= bytes@.subrange(main_start as int, main_start + main_len));
    let new_header = match rewrite_header(header, main.num_entries, langs) {
        Ok(h) => h,
        Err(e) => {
            return Err(e);
        },
    };
    let sha = crate::digests::sha256_hex(new_header.as_slice());
    let mut out = vstd::slice::slice_to_vec(vstd::slice::slice_subrange(bytes.as_slice(), 0, main_start));
    append_bytes(&mut out, new_header.as_slice());
    append_bytes(&mut out, vstd::slice::slice_subrange(bytes.as_slice(), main_start + main_len, len));
    proof {
        assert(bytes@.subrange(0, main_start as int) =~= bytes@.take(main_start as int));
        assert(bytes@.subrange(main_start + main_len, len as int) =~= bytes@.skip(main_start + main_len));
    }
    Ok((out, sha))
}

// ---------------------------------------------------------------------------
// Automatic ELF relations and per-file languages
// ---------------------------------------------------------------------------

/// What the automatic relations read of one staged ELF file: its file
/// name, its `EI_CLASS` byte (when the file has one) and the sonames it
/// needs.
#[derive(Debug, Clone)]
pub struct ElfFacts {
    pub file_name: String,
    pub class_byte: Option<u8>,
    pub needed: Vec<String>,
}

/// The word size RPM's automatic relations carry: 32 for `ELFCLASS32`,
/// else 64.
pub open spec fn elf_bits(class_byte: Option<u8>) -> Seq<char> {
    if class_byte == Some(1u8) {
        "32"@
    } else {
        "64"@
    }
}

/// The dynamic linker is loaded by the kernel, not required as a package.
pub open spec fn is_dynamic_loader(soname: Seq<char>) -> bool {
    starts_with(soname, "ld-"@) || starts_with(soname, "linux-vdso"@)
}

/// `name()(64bit)`: RPM's form of a soname capability.
pub open spec fn capability(name: Seq<char>, bits: Seq<char>) -> Seq<char> {
    name + "()("@ + bits + "bit)"@
}

/// The capabilities one file requires: each needed soname but the dynamic
/// linker.
pub open spec fn file_requires(needed: Seq<Seq<char>>, bits: Seq<char>) -> Seq<Seq<char>>
    decreases needed.len(),
{
    if needed.len() == 0 {
        Seq::empty()
    } else {
        let rest = file_requires(needed.drop_last(), bits);
        if is_dynamic_loader(needed.last()) {
            rest
        } else {
            rest.push(capability(needed.last(), bits))
        }
    }
}

/// The capabilities one file provides: a shared library (`lib*.so*`)
/// provides its name, bare and as a capability.
pub open spec fn file_provides(name: Seq<char>, bits: Seq<char>) -> Seq<Seq<char>> {
    if starts_with(name, "lib"@) && contains_str(name, ".so"@) {
        seq![capability(name, bits), name]
    } else {
        Seq::empty()
    }
}

/// The requirements of all the files, in order.
pub open spec fn all_requires(files: Seq<ElfFacts>) -> Seq<Seq<char>>
    decreases files.len(),
{
    if files.len() == 0 {
        Seq::empty()
    } else {
        all_requires(files.drop_last()) + file_requires(
            files.last().needed.deep_view(),
            elf_bits(files.last().class_byte),
        )
    }
}

/// The provides of all the files, in order.
pub open spec fn all_provides(files: Seq<ElfFacts>) -> Seq<Seq<char>>
    decreases files.len(),
{
    if files.len() == 0 {
        Seq::empty()
    } else {
        all_provides(files.drop_last()) + file_provides(
            files.last().file_name@,
            elf_bits(files.last().class_byte),
        )
    }
}

/// What every file provides, one file at a time.
pub open spec fn provided_by(f: ElfFacts) -> Seq<Seq<char>> {
    file_provides(f.file_name@, elf_bits(f.class_byte))
}

/// A string is provided exactly when one of the files provides it.
proof fn lemma_all_provides_member(files: Seq<ElfFacts>, x: Seq<char>)
    ensures
        all_provides(files).contains(x) <==> exists|j: int|
            0 <= j < files.len() && #[trigger] provided_by(files[j]).contains(x),
    decreases files.len(),
{
    if files.len() > 0 {
        let init = files.drop_last();
        lemma_all_provides_member(init, x);
        let a = all_provides(init);
        let b = provided_by(files.last());
        assert(all_provides(files) == a + b);
        if all_provides(files).contains(x) {
            let k = choose|k: int| 0 <= k < (a + b).len() && (a + b)[k] == x;
            if k < a.len() {
                assert(a[k] == x);
                assert(a.contains(x));
                let j = choose|j: int| 0 <= j < init.len() && #[trigger] provided_by(init[j]).contains(x);
                assert(files[j] == init[j]);
            } else {
                assert(b[k - a.len()] == x);
                assert(provided_by(files[files.len() - 1]).contains(x));
            }
        }
        if exists|j: int| 0 <= j < files.len() && #[trigger] provided_by(files[j]).contains(x) {
            let j = choose|j: int| 0 <= j < files.len() && #[trigger] provided_by(files[j]).contains(x);
            if j < init.len() {
                assert(files[j] == init[j]);
                assert(a.contains(x));
                let k = choose|k: int| 0 <= k < a.len() && a[k] == x;
                assert((a + b)[k] == x);
            } else {
                assert(b.contains(x));
                let k = choose|k: int| 0 <= k < b.len() && b[k] == x;
                assert((a + b)[a.len() + k] == x);
            }
        }
    }
}

/// A 32-bit shared library provides its name with the 32-bit word size:
/// for a file `lib*.so*` whose ELF class is 32-bit, the provides hold the
/// bare name and `name()(32bit)`, and they hold `name()(64bit)` only when
/// some other file is that name with a 64-bit class (or is literally named
/// `name()(64bit)`).
pub proof fn lemma_elf32_library_capability(files: Seq<ElfFacts>, i: int)
    requires
        0 <= i < files.len(),
        files[i].class_byte == Some(1u8),
        starts_with(files[i].file_name@, "lib"@),
        contains_str(files[i].file_name@, ".so"@),
    ensures
        ({
            let name = files[i].file_name@;
            let ps = all_provides(files);
            &&& ps.contains(name)
            &&& ps.contains(name + "()(32bit)"@)
            &&& ps.contains(name + "()(64bit)"@) ==> exists|j: int|
                0 <= j < files.len() && ((#[trigger] files[j].file_name@ == name
                    && files[j].class_byte != Some(1u8)) || files[j].file_name@ == name
                    + "()(64bit)"@)
        }),
{
    reveal_strlit("()(32bit)");
    reveal_strlit("()(64bit)");
    reveal_strlit("()(");
    reveal_strlit("bit)");
    reveal_strlit("32");
    reveal_strlit("64");
    let name = files[i].file_name@;
    let mine = provided_by(files[i]);
    assert(mine == seq![capability(name, "32"@), name]);
    assert(capability(name, "32"@) =~= name + "()(32bit)"@);
    assert(mine[0] == name + "()(32bit)"@);
    assert(mine[1] == name);
    assert(mine.contains(name));
    assert(mine.contains(name + "()(32bit)"@));
    lemma_all_provides_member(files, name);
    lemma_all_provides_member(files, name + "()(32bit)"@);
    let x = name + "()(64bit)"@;
    lemma_all_provides_member(files, x);
    if all_provides(files).contains(x) {
        let j = choose|j: int| 0 <= j < files.len() && #[trigger] provided_by(files[j]).contains(x);
        let f = files[j].file_name@;
        let bits = elf_bits(files[j].class_byte);
        let pj = provided_by(files[j]);
        let k = choose|k: int| 0 <= k < pj.len() && pj[k] == x;
        assert(pj == seq![capability(f, bits), f]);
        if k == 0 {
            let c = capability(f, bits);
            assert(bits.len() == 2);
            assert(c.len() == f.len() + 9);
            assert(x.len() == name.len() + 9);
            assert(f.len() == name.len());
            assert forall|m: int| 0 <= m < f.len() implies f[m] == name[m] by {
                assert(c[m] == f[m]);
                assert(x[m] == name[m]);
            }
            assert(f =~= name);
            assert(c[f.len() as int + 3] == bits[0]);
            assert(x[name.len() as int + 3] == '6');
            assert(files[j].class_byte != Some(1u8));
        } else {
            assert(f == x);
        }
    }
}

/// A 64-bit (or class-less) shared library provides its bare name and
/// `name()(64bit)`.
pub proof fn lemma_elf64_library_capability(files: Seq<ElfFacts>, i: int)
    requires
        0 <= i < files.len(),
        files[i].class_byte != Some(1u8),
        starts_with(files[i].file_name@, "lib"@),
        contains_str(files[i].file_name@, ".so"@),
    ensures
        all_provides(files).contains(files[i].file_name@),
        all_provides(files).contains(files[i].file_name@ + "()(64bit)"@),
{
    reveal_strlit("()(64bit)");
    reveal_strlit("()(");
    reveal_strlit("bit)");
    reveal_strlit("64");
    let name = files[i].file_name@;
    let mine = provided_by(files[i]);
    assert(mine == seq![capability(name, "64"@), name]);
    assert(capability(name, "64"@) =~= name + "()(64bit)"@);
    assert(mine[0] == name + "()(64bit)"@);
    assert(mine[1] == name);
    assert(mine.contains(name));
    assert(mine.contains(name + "()(64bit)"@));
    lemma_all_provides_member(files, name);
    lemma_all_provides_member(files, name + "()(64bit)"@);
}

/// A needed soname other than the dynamic linker is required as a
/// capability of the file's word size.
proof fn lemma_file_requires_member(needed: Seq<Seq<char>>, bits: Seq<char>, k: int)
    requires
        0 <= k < needed.len(),
        !is_dynamic_loader(needed[k]),
    ensures
        file_requires(needed, bits).contains(capability(needed[k], bits)),
    decreases needed.len(),
{
    let init = needed.drop_last();
    if k < needed.len() - 1 {
        assert(init[k] == needed[k]);
        lemma_file_requires_member(init, bits, k);
        let r = file_requires(init, bits);
        let t = choose|t: int| 0 <= t < r.len() && r[t] == capability(needed[k], bits);
        if !is_dynamic_loader(needed.last()) {
            assert(r.push(capability(needed.last(), bits))[t] == r[t]);
        }
    } else {
        let r = file_requires(init, bits);
        assert(r.push(capability(needed[k], bits))[r.len() as int] == capability(needed[k], bits));
    }
}

/// What the files before `i`, then file `i`, require: file `i`'s
/// requirements are among all of them.
proof fn lemma_all_requires_member(files: Seq<ElfFacts>, i: int, x: Seq<char>)
    requires
        0 <= i < files.len(),
        file_requires(files[i].needed.deep_view(), elf_bits(files[i].class_byte)).contains(x),
    ensures
        all_requires(files).contains(x),
    decreases files.len(),
{
    let init = files.drop_last();
    let a = all_requires(init);
    let b = file_requires(files.last().needed.deep_view(), elf_bits(files.last().class_byte));
    assert(all_requires(files) == a + b);
    if i < files.len() - 1 {
        assert(init[i] == files[i]);
        lemma_all_requires_member(init, i, x);
        let k = choose|k: int| 0 <= k < a.len() && a[k] == x;
        assert((a + b)[k] == x);
    } else {
        let k = choose|k: int| 0 <= k < b.len() && b[k] == x;
        assert((a + b)[a.len() + k] == x);
    }
}

/// A 32-bit file requires each soname it needs (but the dynamic linker)
/// with the 32-bit word size, and a 64-bit file with the 64-bit one:
/// `soname()(32bit)` or `soname()(64bit)`.
pub proof fn lemma_elf_requires_word_size(files: Seq<ElfFacts>, i: int, k: int)
    requires
        0 <= i < files.len(),
        0 <= k < files[i].needed@.len(),
        !is_dynamic_loader(files[i].needed@[k]@),
    ensures
        files[i].class_byte == Some(1u8) ==> all_requires(files).contains(
            files[i].needed@[k]@ + "()(32bit)"@,
        ),
        files[i].class_byte != Some(1u8) ==> all_requires(files).contains(
            files[i].needed@[k]@ + "()(64bit)"@,
        ),
{
    reveal_strlit("()(32bit)");
    reveal_strlit("()(64bit)");
    reveal_strlit("()(");
    reveal_strlit("bit)");
    reveal_strlit("32");
    reveal_strlit("64");
    let nd = files[i].needed.deep_view();
    assert(nd[k] == files[i].needed@[k]@);
    let bits = elf_bits(files[i].class_byte);
    lemma_file_requires_member(nd, bits, k);
    lemma_all_requires_member(files, i, capability(nd[k], bits));
    assert(capability(nd[k], "32"@) =~= nd[k] + "()(32bit)"@);
    assert(capability(nd[k], "64"@) =~= nd[k] + "()(64bit)"@);
}

fn capability_exec(name: &str, bits: &str) -> (r: String)
    ensures
        r@ == capability(name@, bits@),
{
    let mut s = name.to_string();
    s.append("()(");
    s.append(bits);
    s.append("bit)");
    s
}

/// RPM's automatic `Requires` and `Provides` for the staged ELF files (the
/// in-process find-requires / find-provides): sorted, without duplicates.
pub fn auto_elf_relations(files: &Vec<ElfFacts>) -> (r: (Vec<String>, Vec<String>))
    ensures
        r.0.deep_view() == crate::sorted::sorted_set(all_requires(files@)),
        r.1.deep_view() == crate::sorted::sorted_set(all_provides(files@)),
        r.0.deep_view().to_set() == all_requires(files@).to_set(),
        r.1.deep_view().to_set() == all_provides(files@).to_set(),
{
    let mut needs: Vec<String> = Vec::new();
    let mut provides: Vec<String> = Vec::new();
    let ld = chars_of("ld-");
    let vdso = chars_of("linux-vdso");
    let lib = chars_of("lib");
    let so = chars_of(".so");
    let mut i: usize = 0;
    assert(files@.take(0) =~= Seq::<ElfFacts>::empty());
    while i < files.len()
        invariant
            i <= files@.len(),
            ld@ == "ld-"@,
            vdso@ == "linux-vdso"@,
            lib@ == "lib"@,
            so@ == ".so"@,
            needs.deep_view() == all_requires(files@.take(i as int)),
            provides.deep_view() == all_provides(files@.take(i as int)),
        decreases files.len() - i,
    {
        assert(files@.take(i + 1).drop_last() =~= files@.take(i as int));
        assert(files@.take(i + 1).last() == files@[i as int]);
        let f = &files[i];
        let bits = if f.class_byte == Some(1u8) {
            "32"
        } else {
            "64"
        };
        assert(bits@ == elf_bits(f.class_byte));
        let ghost start = needs.deep_view();
        let ghost nd = f.needed.deep_view();
        let mut k: usize = 0;
        assert(nd.take(0) =~= Seq::<Seq<char>>::empty());
        assert(start + file_requires(nd.take(0), bits@) =~= start);
        while k < f.needed.len()
            invariant
                k <= f.needed@.len(),
                nd == f.needed.deep_view(),
                ld@ == "ld-"@,
                vdso@ == "linux-vdso"@,
                needs.deep_view() == start + file_requires(nd.take(k as int), bits@),
            decreases f.needed.len() - k,
        {
            assert(nd.take(k + 1).drop_last() =~= nd.take(k as int));
            assert(nd.take(k + 1).last() == f.needed@[k as int]@);
            let n = chars_of(f.needed[k].as_str());
            if !(starts_with_exec(n.as_slice(), ld.as_slice()) || starts_with_exec(n.as_slice(), vdso.as_slice())) {
                let c = capability_exec(f.needed[k].as_str(), bits);
                let ghost before = needs.deep_view();
                let ghost cv = c@;
                needs.push(c);
                assert(needs.deep_view() =~= before.push(cv));
                assert(start + file_requires(nd.take(k + 1), bits@) =~= (start + file_requires(nd.take(k as int), bits@)).push(cv));
            }
            k = k + 1;
        }
        assert(nd.take(f.needed.len() as int) =~= nd);
        let name = chars_of(f.file_name.as_str());
        let ghost pstart = provides.deep_view();
        if starts_with_exec(name.as_slice(), lib.as_slice()) && contains_exec(name.as_slice(), so.as_slice()) {
            let c = capability_exec(f.file_name.as_str(), bits);
            let ghost cv = c@;
            provides.push(c);
            provides.push(f.file_name.clone());
            assert(provides.deep_view() =~= pstart + seq![cv, f.file_name@]);
        } else {
            assert(provides.deep_view() =~= pstart + Seq::<Seq<char>>::empty());
        }
        i = i + 1;
    }
    assert(files@.take(files.len() as int) =~= files@);
    (crate::sorted::sorted_set_exec(&needs), crate::sorted::sorted_set_exec(&provides))
}

/// The language of each installed file, in header order, from the
/// `file_info` languages keyed by path (a path without one gets an empty
/// language).
pub open spec fn langs_of(paths: Seq<Seq<char>>, by_path: Map<Seq<char>, Seq<char>>) -> Seq<Seq<char>> {
    paths.map_values(|p: Seq<char>| if by_path.contains_key(p) { by_path[p] } else { Seq::empty() })
}

/// The `%lang` array for the installed files, or `None` when no file sets a
/// language.
pub fn collect_file_langs(
    paths: &Vec<String>,
    by_path: &crate::plugins::package_index::keyvalue::KeyValues,
) -> (r: Option<Vec<String>>)
    ensures
        match r {
            Some(ls) => ls.deep_view() == langs_of(paths.deep_view(), by_path@) && exists|i: int|
                0 <= i < ls.len() && (#[trigger] ls.deep_view()[i]).len() > 0,
            None => forall|i: int|
                0 <= i < paths.len() ==> (#[trigger] langs_of(paths.deep_view(), by_path@)[i]).len() == 0,
        },
{
    let ghost want = langs_of(paths.deep_view(), by_path@);
    let mut langs: Vec<String> = Vec::new();
    let mut any = false;
    let mut i: usize = 0;
    while i < paths.len()
        invariant
            i <= paths.len(),
            want == langs_of(paths.deep_view(), by_path@),
            langs.deep_view() == want.take(i as int),
            any <==> exists|j: int| 0 <= j < i && (#[trigger] want[j]).len() > 0,
        decreases paths.len() - i,
    {
        assert(want[i as int] == (if by_path@.contains_key(paths@[i as int]@) { by_path@[paths@[i as int]@] } else { Seq::<char>::empty() }));
        let l = match by_path.get(paths[i].as_str()) {
            Some(v) => v.clone(),
            None => String::new(),
        };
        if !l.as_str().is_empty() {
            any = true;
        }
        let ghost before = langs.deep_view();
        let ghost lv = l@;
        langs.push(l);
        assert(langs.deep_view() =~= before.push(lv));
        assert(want.take(i + 1) =~= want.take(i as int).push(want[i as int]));
        i = i + 1;
    }
    assert(want.take(paths.len() as int) =~= want);
    if any {
        Some(langs)
    } else {
        None
    }
}

// ---------------------------------------------------------------------------
// Trigger entries of the config
// ---------------------------------------------------------------------------

/// A trigger entry that is not `package: script_path`.
#[derive(Debug, Clone)]
pub struct TriggerEntryError {
    /// The offending entry, trimmed.
    pub entry: String,
}

/// What a trigger entry says: `None` for a blank entry or one with an empty
/// package; else the package and the script path (both trimmed).
pub open spec fn trigger_entry_of(entry: Seq<char>) -> Option<Option<(Seq<char>, Seq<char>)>> {
    let e = trim(entry);
    if e.len() == 0 {
        Some(None)
    } else {
        match crate::text::split_once_class(e, seq![':']) {
            None => None,
            Some((p, s)) => if trim(p).len() == 0 {
                Some(None)
            } else {
                Some(Some((trim(p), trim(s))))
            },
        }
    }
}

/// The triggers the entries name, in order, or the index of the first entry
/// without a `:`.
pub open spec fn trigger_entries_of(entries: Seq<Seq<char>>) -> Result<Seq<(Seq<char>, Seq<char>)>, int>
    decreases entries.len(),
{
    if entries.len() == 0 {
        Ok(Seq::empty())
    } else {
        match trigger_entries_of(entries.drop_last()) {
            Err(i) => Err(i),
            Ok(ts) => match trigger_entry_of(entries.last()) {
                None => Err(entries.len() - 1),
                Some(None) => Ok(ts),
                Some(Some(t)) => Ok(ts.push(t)),
            },
        }
    }
}

proof fn lemma_trigger_error_persists(all: Seq<Seq<char>>, j: int, i: int)
    requires
        0 <= j <= all.len(),
        trigger_entries_of(all.take(j)) == Err::<Seq<(Seq<char>, Seq<char>)>, int>(i),
    ensures
        trigger_entries_of(all.take(all.len() as int)) == Err::<Seq<(Seq<char>, Seq<char>)>, int>(i),
    decreases all.len() - j,
{
    if j < all.len() {
        assert(all.take(j + 1).drop_last() =~= all.take(j));
        lemma_trigger_error_persists(all, j + 1, i);
    }
}

/// Reads `"package: script_path"` trigger entries: each non-blank entry
/// names the package that fires the trigger and the script (a path in the
/// build tree; empty for none). Entries with an empty package are skipped;
/// an entry without `:` is an error.
pub fn parse_rpm_trigger_entries(entries: &Vec<String>) -> (r: Result<Vec<(String, String)>, TriggerEntryError>)
    ensures
        match r {
            Ok(ts) => trigger_entries_of(entries.deep_view()) == Ok::<Seq<(Seq<char>, Seq<char>)>, int>(
                crate::shlibdeps::pair_views(ts@),
            ),
            Err(e) => exists|i: int|
                trigger_entries_of(entries.deep_view()) == Err::<Seq<(Seq<char>, Seq<char>)>, int>(i)
                    && 0 <= i < entries.len() && e.entry@ == trim(entries.deep_view()[i]),
        },
{
    let ghost all = entries.deep_view();
    let colon: Vec<char> = vec![':'];
    assert(colon@ =~= seq![':']);
    let mut out: Vec<(String, String)> = Vec::new();
    let mut i: usize = 0;
    assert(all.take(0) =~= Seq::<Seq<char>>::empty());
    assert(crate::shlibdeps::pair_views(out@) =~= Seq::<(Seq<char>, Seq<char>)>::empty());
    while i < entries.len()
        invariant
            i <= entries.len(),
            all == entries.deep_view(),
            colon@ == seq![':'],
            trigger_entries_of(all.take(i as int)) == Ok::<Seq<(Seq<char>, Seq<char>)>, int>(
                crate::shlibdeps::pair_views(out@),
            ),
        decreases entries.len() - i,
    {
        assert(all.take(i + 1).drop_last() =~= all.take(i as int));
        assert(all.take(i + 1).last() == entries@[i as int]@);
        let v = chars_of(entries[i].as_str());
        let e = trim_slice(v.as_slice());
        if e.len() > 0 {
            let k = find_class_from(e, 0, false, colon.as_slice());
            assert(e@.skip(0) =~= e@);
            if k == e.len() {
                proof {
                    assert(trigger_entries_of(all.take(i + 1)) == Err::<Seq<(Seq<char>, Seq<char>)>, int>(i as int));
                    lemma_trigger_error_persists(all, i + 1, i as int);
                    assert(all.take(all.len() as int) =~= all);
                }
                return Err(TriggerEntryError { entry: string_of(e) });
            }
            let p = trim_slice(vstd::slice::slice_subrange(e, 0, k));
            let s = trim_slice(vstd::slice::slice_subrange(e, k + 1, e.len()));
            assert(e@.take(k as int) =~= e@.subrange(0, k as int));
            assert(e@.skip(k + 1) =~= e@.subrange(k + 1, e@.len() as int));
            if p.len() > 0 {
                let ghost before = crate::shlibdeps::pair_views(out@);
                out.push((string_of(p), string_of(s)));
                assert(crate::shlibdeps::pair_views(out@) =~= before.push((p@, s@)));
            }
        }
        i = i + 1;
    }
    assert(all.take(entries.len() as int) =~= all);
    Ok(out)
}

} // verus!
