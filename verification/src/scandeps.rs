//! `lx scan-deps`: compare the shared libraries a release's binaries need
//! with the packages `depends:` declares. This module holds the command's
//! arguments, the declared-name reading, the comparison, and the reading of
//! the host package managers' answers (`dpkg -S`, `rpm -q --whatprovides`,
//! `ldconfig -p`, `pacman -Qo`, the installed-version queries). Running the
//! tools and the ELF scan stay outside.
use vstd::prelude::*;

use crate::sorted::{sorted_unique, strictly_sorted, without};
use crate::text::{
    after_last,
    after_last_exec,
    append_chars,
    before_class,
    before_class_exec,
    chars_of,
    contains_exec,
    find_class_from,
    seq_eq,
    slice_to_vec,
    split_once_class,
    trim_all,
    contains_str,
    lines,
    lines_exec,
    lower_vec,
    non_empty,
    rfind_exec,
    rfind_str,
    split_class,
    split_class_exec,
    split_ws,
    split_ws_exec,
    starts_with,
    starts_with_exec,
    string_of,
    to_lower,
    trim,
    trim_slice,
};

verus! {

/// Arguments of `lx scan-deps`.
#[derive(Debug, Clone)]
pub struct ScanDepsArgs {
    /// Path to package.yaml, or a bare GitHub URL for a zero-config scan.
    pub config: String,
    /// Version of the software to scan.
    pub version: Option<String>,
    /// Restrict to specific architectures (comma-separated).
    pub architectures: Option<String>,
    /// Scan every architecture the release publishes.
    pub all_architectures: bool,
    /// Print a why-depends report.
    pub explain: bool,
    /// Prefer musl-static release assets.
    pub prefer_musl: bool,
}

/// Detected host package manager for soname-to-package resolution.
#[derive(Debug, Clone, Copy, PartialEq, Eq, Structural)]
pub enum PkgMgr {
    Dpkg,
    Rpm,
    Pacman,
}

// ---------------------------------------------------------------------------
// Declared names and the comparison
// ---------------------------------------------------------------------------

/// The package name a relation piece declares: the text before any `(`,
/// trimmed and lower-cased.
pub open spec fn declared_name(piece: Seq<char>) -> Seq<char> {
    to_lower(trim(before_class(piece, seq!['('])))
}

/// The names a relation field declares, in order: every alternative of
/// every clause (the pieces between `,` and `|`), empty ones dropped.
pub open spec fn declared_names(relation: Seq<char>) -> Seq<Seq<char>> {
    non_empty(split_class(relation, false, seq![',', '|']).map_values(|p: Seq<char>| declared_name(p)))
}

/// Declared package names from a relation field (`depends:`, ...), stripped
/// of version constraints and alternatives, lower-cased, sorted and without
/// duplicates.
pub fn declared_package_names(relation: &str) -> (r: Vec<String>)
    ensures
        strictly_sorted(r.deep_view()),
        r.deep_view().to_set() == declared_names(relation@).to_set(),
{
    let v = chars_of(relation);
    let seps: Vec<char> = vec![',', '|'];
    assert(seps@ =~= seq![',', '|']);
    let open_paren: Vec<char> = vec!['('];
    assert(open_paren@ =~= seq!['(']);
    let pieces = split_class_exec(v.as_slice(), false, seps.as_slice());
    let ghost ps = pieces.deep_view().map_values(|p: Seq<char>| declared_name(p));
    let mut names: Vec<String> = Vec::new();
    let mut i: usize = 0;
    assert(ps.take(0) =~= Seq::<Seq<char>>::empty());
    while i < pieces.len()
        invariant
            i <= pieces.len(),
            open_paren@ == seq!['('],
            ps == pieces.deep_view().map_values(|p: Seq<char>| declared_name(p)),
            names.deep_view() == non_empty(ps.take(i as int)),
        decreases pieces.len() - i,
    {
        assert(ps.take(i + 1).drop_last() =~= ps.take(i as int));
        assert(pieces.deep_view()[i as int] == pieces@[i as int]@);
        let n = lower_vec(trim_slice(before_class_exec(pieces[i].as_slice(), open_paren.as_slice())));
        assert(n@ == ps[i as int]);
        if n.len() > 0 {
            let ghost before = names.deep_view();
            names.push(string_of(n.as_slice()));
            assert(names.deep_view() =~= before.push(ps[i as int]));
        }
        i = i + 1;
    }
    assert(ps.take(ps.len() as int) =~= ps);
    sorted_unique(&names)
}

/// The package an owner report names: the text before any `:` (an arch
/// qualifier), lower-cased.
pub open spec fn owner_key(owner: Seq<char>) -> Seq<char> {
    to_lower(before_class(owner, seq![':']))
}

/// Compare the packages owning the scanned sonames against the declared
/// `depends:`. Returns (missing, unnecessary): the owners not declared and
/// the declared names no owner accounts for, each sorted and without
/// duplicates.
pub fn diff_deps(owners: &Vec<String>, declared_depends: &str) -> (r: (Vec<String>, Vec<String>))
    ensures
        ({
            let scanned = owners.deep_view().map_values(|o: Seq<char>| owner_key(o)).to_set();
            let declared = declared_names(declared_depends@).to_set();
            &&& strictly_sorted(r.0.deep_view())
            &&& strictly_sorted(r.1.deep_view())
            &&& r.0.deep_view().to_set() == scanned.difference(declared)
            &&& r.1.deep_view().to_set() == declared.difference(scanned)
        }),
{
    let declared = declared_package_names(declared_depends);
    let colon: Vec<char> = vec![':'];
    assert(colon@ =~= seq![':']);
    let ghost ks = owners.deep_view().map_values(|o: Seq<char>| owner_key(o));
    let mut keys: Vec<String> = Vec::new();
    let mut i: usize = 0;
    while i < owners.len()
        invariant
            i <= owners.len(),
            colon@ == seq![':'],
            ks == owners.deep_view().map_values(|o: Seq<char>| owner_key(o)),
            keys.deep_view() == ks.take(i as int),
        decreases owners.len() - i,
    {
        assert(owners.deep_view()[i as int] == owners@[i as int]@);
        let k = lower_vec(before_class_exec(chars_of(owners[i].as_str()).as_slice(), colon.as_slice()));
        let ghost before = keys.deep_view();
        keys.push(string_of(k.as_slice()));
        assert(keys.deep_view() =~= before.push(ks[i as int]));
        assert(ks.take(i + 1) =~= ks.take(i as int).push(ks[i as int]));
        i = i + 1;
    }
    assert(ks.take(ks.len() as int) =~= ks);
    let scanned = sorted_unique(&keys);
    let missing = without(&scanned, &declared);
    let unnecessary = without(&declared, &scanned);
    (missing, unnecessary)
}

// ---------------------------------------------------------------------------
// Package-manager answers
// ---------------------------------------------------------------------------

/// The owner `dpkg -S <soname>` reports: the text before the first `:` of
/// its first line, trimmed; none when that is empty.
pub open spec fn dpkg_owner_of(out: Seq<char>) -> Option<Seq<char>> {
    let ls = lines(out);
    if ls.len() == 0 {
        None
    } else {
        let p = trim(before_class(ls[0], seq![':']));
        if p.len() == 0 {
            None
        } else {
            Some(p)
        }
    }
}

/// The owning package in `dpkg -S` output.
pub fn owner_from_dpkg(out: &str) -> (r: Option<String>)
    ensures
        match r {
            Some(p) => dpkg_owner_of(out@) == Some(p@),
            None => dpkg_owner_of(out@) is None,
        },
{
    let t = chars_of(out);
    let ls = lines_exec(t.as_slice());
    if ls.len() == 0 {
        return None;
    }
    assert(ls.deep_view()[0] == ls@[0]@);
    let colon: Vec<char> = vec![':'];
    assert(colon@ =~= seq![':']);
    let p = trim_slice(before_class_exec(ls[0].as_slice(), colon.as_slice()));
    if p.len() == 0 {
        None
    } else {
        Some(string_of(p))
    }
}

/// The package name in an `rpm -q --whatprovides` answer: of the first line
/// (trimmed), the text after the last `:`, cut before its last `-`, then
/// after a remaining first `:`; none for an empty line or `no package
/// provides`.
pub open spec fn rpm_owner_of(out: Seq<char>) -> Option<Seq<char>> {
    let ls = lines(out);
    if ls.len() == 0 {
        None
    } else {
        let line = trim(ls[0]);
        if starts_with(line, "no package provides"@) || line.len() == 0 {
            None
        } else {
            let a = after_last(line, ":"@);
            let d = rfind_str(a, "-"@);
            let b = if d < 0 {
                a
            } else {
                a.take(d)
            };
            let c = match crate::text::split_once_class(b, seq![':']) {
                Some((_, n)) => n,
                None => b,
            };
            if c.len() == 0 {
                None
            } else {
                Some(c)
            }
        }
    }
}

/// The owning package in `rpm -q --whatprovides` output.
pub fn owner_from_rpm(out: &str) -> (r: Option<String>)
    ensures
        match r {
            Some(p) => rpm_owner_of(out@) == Some(p@),
            None => rpm_owner_of(out@) is None,
        },
{
    let t = chars_of(out);
    let ls = lines_exec(t.as_slice());
    if ls.len() == 0 {
        return None;
    }
    assert(ls.deep_view()[0] == ls@[0]@);
    let line = trim_slice(ls[0].as_slice());
    if starts_with_exec(line, chars_of("no package provides").as_slice()) || line.len() == 0 {
        return None;
    }
    let a = after_last_exec(line, chars_of(":").as_slice());
    let b = match rfind_exec(a, chars_of("-").as_slice()) {
        Some(d) => vstd::slice::slice_subrange(a, 0, d),
        None => a,
    };
    let colon: Vec<char> = vec![':'];
    assert(colon@ =~= seq![':']);
    let k = crate::text::find_class_from(b, 0, false, colon.as_slice());
    assert(b@.skip(0) =~= b@);
    let c = if k < b.len() {
        vstd::slice::slice_subrange(b, k + 1, b.len())
    } else {
        b
    };
    if c.len() == 0 {
        None
    } else {
        Some(string_of(c))
    }
}

/// Index of the first `ldconfig -p` line naming `soname` with a `=>`, or -1.
pub open spec fn first_ldconfig_line(ls: Seq<Seq<char>>, soname: Seq<char>) -> int
    decreases ls.len(),
{
    if ls.len() == 0 {
        -1
    } else if contains_str(ls[0], soname) && contains_str(ls[0], "=>"@) {
        0
    } else {
        let k = first_ldconfig_line(ls.drop_first(), soname);
        if k < 0 {
            -1
        } else {
            k + 1
        }
    }
}

/// The library path `ldconfig -p` lists for `soname`: after the last `=>`
/// of the first matching line, trimmed.
pub open spec fn ldconfig_path_of(out: Seq<char>, soname: Seq<char>) -> Option<Seq<char>> {
    let ls = lines(out);
    let k = first_ldconfig_line(ls, soname);
    if k < 0 || k >= ls.len() {
        None
    } else {
        Some(trim(after_last(ls[k], "=>"@)))
    }
}

/// The library path for `soname` in `ldconfig -p` output.
pub fn ldconfig_path(out: &str, soname: &str) -> (r: Option<String>)
    ensures
        match r {
            Some(p) => ldconfig_path_of(out@, soname@) == Some(p@),
            None => ldconfig_path_of(out@, soname@) is None,
        },
{
    let t = chars_of(out);
    let ls = lines_exec(t.as_slice());
    let ghost all = ls.deep_view();
    let so = chars_of(soname);
    let arrow = chars_of("=>");
    let mut i: usize = 0;
    assert(all.skip(0) =~= all);
    while i < ls.len()
        invariant
            i <= ls.len(),
            all == ls.deep_view(),
            all == lines(out@),
            so@ == soname@,
            arrow@ == "=>"@,
            first_ldconfig_line(all, soname@) == (if first_ldconfig_line(all.skip(i as int), soname@) < 0 {
                -1
            } else {
                first_ldconfig_line(all.skip(i as int), soname@) + i
            }),
        decreases ls.len() - i,
    {
        assert(all[i as int] == ls@[i as int]@);
        assert(all.skip(i as int).drop_first() =~= all.skip(i + 1));
        assert(all.skip(i as int)[0] == all[i as int]);
        if contains_exec(ls[i].as_slice(), so.as_slice()) && contains_exec(ls[i].as_slice(), arrow.as_slice()) {
            let p = trim_slice(after_last_exec(ls[i].as_slice(), arrow.as_slice()));
            return Some(string_of(p));
        }
        i = i + 1;
    }
    assert(all.skip(i as int) =~= Seq::<Seq<char>>::empty());
    None
}

/// The package `pacman -Qo` reports: the first word after the last
/// `is owned by`.
pub open spec fn pacman_owner_of(out: Seq<char>) -> Option<Seq<char>> {
    let words = split_ws(after_last(out, "is owned by"@));
    if words.len() == 0 {
        None
    } else {
        Some(words[0])
    }
}

/// The owning package in `pacman -Qo` output.
pub fn owner_from_pacman(out: &str) -> (r: Option<String>)
    ensures
        match r {
            Some(p) => pacman_owner_of(out@) == Some(p@),
            None => pacman_owner_of(out@) is None,
        },
{
    let t = chars_of(out);
    let after = after_last_exec(t.as_slice(), chars_of("is owned by").as_slice());
    let words = split_ws_exec(after);
    if words.len() == 0 {
        None
    } else {
        assert(words.deep_view()[0] == words@[0]@);
        Some(string_of(words[0].as_slice()))
    }
}

/// The installed version a package manager's query printed: `dpkg-query`'s
/// trimmed output; `rpm -q`'s unless it says `not installed`; the first
/// non-empty `Version         : ` value of `pacman -Qi`. None when empty.
pub open spec fn installed_version_of(mgr: PkgMgr, out: Seq<char>) -> Option<Seq<char>> {
    match mgr {
        PkgMgr::Dpkg => if trim(out).len() == 0 {
            None
        } else {
            Some(trim(out))
        },
        PkgMgr::Rpm => if starts_with(trim(out), "not installed"@) || trim(out).len() == 0 {
            None
        } else {
            Some(trim(out))
        },
        PkgMgr::Pacman => pacman_version_in(lines(out)),
    }
}

/// The first non-empty `Version         : ` value among the lines.
pub open spec fn pacman_version_in(ls: Seq<Seq<char>>) -> Option<Seq<char>>
    decreases ls.len(),
{
    if ls.len() == 0 {
        None
    } else if starts_with(ls[0], "Version         : "@) && trim(
        ls[0].skip("Version         : "@.len() as int),
    ).len() > 0 {
        Some(trim(ls[0].skip("Version         : "@.len() as int)))
    } else {
        pacman_version_in(ls.drop_first())
    }
}

/// The installed version in a package manager's query output.
pub fn pkg_installed_version(mgr: PkgMgr, out: &str) -> (r: Option<String>)
    ensures
        match r {
            Some(v) => installed_version_of(mgr, out@) == Some(v@),
            None => installed_version_of(mgr, out@) is None,
        },
{
    let t = chars_of(out);
    match mgr {
        PkgMgr::Dpkg => {
            let v = trim_slice(t.as_slice());
            if v.len() == 0 {
                None
            } else {
                Some(string_of(v))
            }
        },
        PkgMgr::Rpm => {
            let v = trim_slice(t.as_slice());
            if starts_with_exec(v, chars_of("not installed").as_slice()) || v.len() == 0 {
                None
            } else {
                Some(string_of(v))
            }
        },
        PkgMgr::Pacman => {
            let ls = lines_exec(t.as_slice());
            let ghost all = ls.deep_view();
            let key = chars_of("Version         : ");
            let mut i: usize = 0;
            assert(all.skip(0) =~= all);
            while i < ls.len()
                invariant
                    i <= ls.len(),
                    all == ls.deep_view(),
                    all == lines(out@),
                    mgr == PkgMgr::Pacman,
                    key@ == "Version         : "@,
                    pacman_version_in(all) == pacman_version_in(all.skip(i as int)),
                decreases ls.len() - i,
            {
                assert(all[i as int] == ls@[i as int]@);
                assert(all.skip(i as int).drop_first() =~= all.skip(i + 1));
                assert(all.skip(i as int)[0] == all[i as int]);
                if starts_with_exec(ls[i].as_slice(), key.as_slice()) {
                    let v = trim_slice(vstd::slice::slice_subrange(ls[i].as_slice(), key.len(), ls[i].len()));
                    if v.len() > 0 {
                        return Some(string_of(v));
                    }
                }
                i = i + 1;
            }
            None
        },
    }
}

// ---------------------------------------------------------------------------
// Dependencies and files of an installed package
// ---------------------------------------------------------------------------

/// Whether a trimmed `rpm -q --requires` line names a package: not empty,
/// not a file path, not an `rpmlib(..)` or `config(..)` capability.
pub open spec fn rpm_requirement_kept(l: Seq<char>) -> bool {
    l.len() > 0 && !starts_with(l, "/"@) && !starts_with(l, "rpmlib("@) && !starts_with(
        l,
        "config("@,
    )
}

/// The package name of a requirement line: its first word, so that
/// `libfoo >= 1.0` gives `libfoo`.
pub open spec fn first_word(l: Seq<char>) -> Seq<char> {
    if split_ws(l).len() > 0 {
        split_ws(l)[0]
    } else {
        l
    }
}

/// The package names among `rpm -q --requires` lines, in order.
pub open spec fn rpm_requirements(ls: Seq<Seq<char>>) -> Seq<Seq<char>>
    decreases ls.len(),
{
    if ls.len() == 0 {
        Seq::empty()
    } else {
        let rest = rpm_requirements(ls.drop_last());
        let l = trim(ls.last());
        if rpm_requirement_kept(l) {
            rest.push(first_word(l))
        } else {
            rest
        }
    }
}

/// The first word of `v`, or all of `v` when it has none.
fn first_word_exec(v: &[char]) -> (r: Vec<char>)
    ensures
        r@ == first_word(v@),
{
    let words = split_ws_exec(v);
    if words.len() > 0 {
        assert(words.deep_view()[0] == words@[0]@);
        let mut w: Vec<char> = Vec::new();
        append_chars(&mut w, words[0].as_slice());
        w
    } else {
        slice_to_vec(v)
    }
}

/// Runtime dependencies named in `rpm -q --requires` output: the first word
/// of each line that is not a path, an `rpmlib(..)` or a `config(..)`
/// capability.
pub fn rpm_requires(out: &str) -> (r: Vec<String>)
    ensures
        r.deep_view() == rpm_requirements(lines(out@)),
{
    let t = chars_of(out);
    let ls = lines_exec(t.as_slice());
    let ghost all = ls.deep_view();
    let slash = chars_of("/");
    let rpmlib = chars_of("rpmlib(");
    let config = chars_of("config(");
    let mut names: Vec<String> = Vec::new();
    let mut i: usize = 0;
    assert(all.take(0) =~= Seq::<Seq<char>>::empty());
    while i < ls.len()
        invariant
            i <= ls.len(),
            all == ls.deep_view(),
            all == lines(out@),
            slash@ == "/"@,
            rpmlib@ == "rpmlib("@,
            config@ == "config("@,
            names.deep_view() == rpm_requirements(all.take(i as int)),
        decreases ls.len() - i,
    {
        assert(all.take(i + 1).drop_last() =~= all.take(i as int));
        assert(all.take(i + 1).last() == ls@[i as int]@);
        let l = trim_slice(ls[i].as_slice());
        if l.len() > 0 && !starts_with_exec(l, slash.as_slice()) && !starts_with_exec(
            l,
            rpmlib.as_slice(),
        ) && !starts_with_exec(l, config.as_slice()) {
            let w = first_word_exec(l);
            let ghost before = names.deep_view();
            names.push(string_of(w.as_slice()));
            assert(names.deep_view() =~= before.push(w@));
        }
        i = i + 1;
    }
    assert(all.take(ls.len() as int) =~= all);
    names
}

/// The package name in a pacman dependency word: the text before the first
/// `>`, `<` or `=`.
pub open spec fn pacman_dep_name(w: Seq<char>) -> Seq<char> {
    before_class(w, seq!['>', '<', '='])
}

/// The non-empty package names of the words, in order.
pub open spec fn pacman_dep_names(ws: Seq<Seq<char>>) -> Seq<Seq<char>>
    decreases ws.len(),
{
    if ws.len() == 0 {
        Seq::empty()
    } else {
        let rest = pacman_dep_names(ws.drop_last());
        let n = pacman_dep_name(ws.last());
        if n.len() > 0 {
            rest.push(n)
        } else {
            rest
        }
    }
}

/// The value of a `Depends On     : ` line: the text after its colon,
/// trimmed.
pub open spec fn depends_on_value(line: Seq<char>) -> Seq<char> {
    trim(line.skip("Depends On     :"@.len() as int))
}

/// Reads `pacman -Qi` lines from `in_deps` on: `Some(names)` with the names
/// of the `Depends On` field and its continuation lines, or `None` when the
/// field says `None` or is empty (then the package has no dependencies).
pub open spec fn pacman_depends_scan(ls: Seq<Seq<char>>, in_deps: bool) -> Option<Seq<Seq<char>>>
    decreases ls.len(),
{
    if ls.len() == 0 {
        Some(Seq::empty())
    } else {
        let line = ls[0];
        if starts_with(line, "Depends On     : "@) {
            let val = depends_on_value(line);
            if val == "None"@ || val.len() == 0 {
                None
            } else {
                match pacman_depends_scan(ls.drop_first(), true) {
                    Some(rest) => Some(pacman_dep_names(split_ws(val)) + rest),
                    None => None,
                }
            }
        } else if in_deps && starts_with(line, " "@) {
            match pacman_depends_scan(ls.drop_first(), true) {
                Some(rest) => Some(pacman_dep_names(split_ws(line)) + rest),
                None => None,
            }
        } else if in_deps {
            Some(Seq::empty())
        } else {
            pacman_depends_scan(ls.drop_first(), false)
        }
    }
}

/// The dependency names in `pacman -Qi` output.
pub open spec fn pacman_depends_of(out: Seq<char>) -> Seq<Seq<char>> {
    match pacman_depends_scan(lines(out), false) {
        Some(d) => d,
        None => Seq::empty(),
    }
}

/// Appends the non-empty package names of the words of `v` to `names`.
fn push_pacman_names(names: &mut Vec<String>, v: &[char])
    ensures
        final(names).deep_view() == old(names).deep_view() + pacman_dep_names(split_ws(v@)),
{
    let words = split_ws_exec(v);
    let ghost ws = words.deep_view();
    let seps: Vec<char> = vec!['>', '<', '='];
    assert(seps@ =~= seq!['>', '<', '=']);
    let ghost start = names.deep_view();
    let mut i: usize = 0;
    assert(ws.take(0) =~= Seq::<Seq<char>>::empty());
    assert(start + pacman_dep_names(ws.take(0)) =~= start);
    while i < words.len()
        invariant
            i <= words.len(),
            ws == words.deep_view(),
            ws == split_ws(v@),
            seps@ == seq!['>', '<', '='],
            names.deep_view() == start + pacman_dep_names(ws.take(i as int)),
        decreases words.len() - i,
    {
        assert(ws.take(i + 1).drop_last() =~= ws.take(i as int));
        assert(ws.take(i + 1).last() == words@[i as int]@);
        let n = before_class_exec(words[i].as_slice(), seps.as_slice());
        if n.len() > 0 {
            let ghost before = names.deep_view();
            names.push(string_of(n));
            assert(names.deep_view() =~= before.push(n@));
            assert(start + pacman_dep_names(ws.take(i + 1)) =~= (start + pacman_dep_names(
                ws.take(i as int),
            )).push(n@));
        }
        i = i + 1;
    }
    assert(ws.take(words.len() as int) =~= ws);
}

/// Runtime dependencies named in `pacman -Qi` output: the words of the
/// `Depends On` field and of its continuation lines, each cut at its first
/// `>`, `<` or `=`; none when the field says `None` or is empty.
pub fn pacman_depends(out: &str) -> (r: Vec<String>)
    ensures
        r.deep_view() == pacman_depends_of(out@),
{
    let t = chars_of(out);
    let ls = lines_exec(t.as_slice());
    let ghost all = ls.deep_view();
    let key = chars_of("Depends On     : ");
    let none = chars_of("None");
    let space = chars_of(" ");
    proof {
        reveal_strlit("Depends On     : ");
        reveal_strlit("Depends On     :");
    }
    let mut deps: Vec<String> = Vec::new();
    let mut in_deps = false;
    let mut done = false;
    let mut i: usize = 0;
    assert(all.skip(0) =~= all);
    proof {
        match pacman_depends_scan(all, false) {
            Some(rest) => {
                assert(deps.deep_view() + rest =~= rest);
            },
            None => {},
        }
    }
    while i < ls.len() && !done
        invariant
            i <= ls.len(),
            all == ls.deep_view(),
            all == lines(out@),
            key@ == "Depends On     : "@,
            "Depends On     :"@.len() == 16,
            key@.len() == 17,
            none@ == "None"@,
            space@ == " "@,
            done ==> pacman_depends_scan(all, false) == Some(deps.deep_view()),
            !done ==> pacman_depends_scan(all, false) == match pacman_depends_scan(
                all.skip(i as int),
                in_deps,
            ) {
                Some(rest) => Some(deps.deep_view() + rest),
                None => None::<Seq<Seq<char>>>,
            },
        decreases ls.len() - i,
    {
        let ghost suffix = all.skip(i as int);
        assert(suffix[0] == ls@[i as int]@);
        assert(suffix.drop_first() =~= all.skip(i + 1));
        let line = ls[i].as_slice();
        if starts_with_exec(line, key.as_slice()) {
            let val = trim_slice(vstd::slice::slice_subrange(line, 16, line.len()));
            assert(line@.skip(16) =~= line@.subrange(16, line@.len() as int));
            if seq_eq(val, none.as_slice()) || val.len() == 0 {
                return Vec::new();
            }
            let ghost before = deps.deep_view();
            push_pacman_names(&mut deps, val);
            proof {
                match pacman_depends_scan(all.skip(i + 1), true) {
                    Some(rest) => {
                        assert(before + (pacman_dep_names(split_ws(val@)) + rest) =~= deps.deep_view() + rest);
                    },
                    None => {},
                }
            }
            in_deps = true;
        } else if in_deps && starts_with_exec(line, space.as_slice()) {
            let ghost before = deps.deep_view();
            push_pacman_names(&mut deps, line);
            proof {
                match pacman_depends_scan(all.skip(i + 1), true) {
                    Some(rest) => {
                        assert(before + (pacman_dep_names(split_ws(line@)) + rest) =~= deps.deep_view() + rest);
                    },
                    None => {},
                }
            }
        } else if in_deps {
            assert(deps.deep_view() + Seq::<Seq<char>>::empty() =~= deps.deep_view());
            done = true;
        }
        i = i + 1;
    }
    if !done {
        assert(all.skip(ls.len() as int) =~= Seq::<Seq<char>>::empty());
        assert(deps.deep_view() + Seq::<Seq<char>>::empty() =~= deps.deep_view());
    }
    deps
}

/// The file list in a package manager's `-L` / `-ql` / `-Ql` output: each
/// line trimmed for dpkg and rpm; for pacman the text after the first space
/// of each line that has one (`package /path`), trimmed.
pub open spec fn pkg_files_of(mgr: PkgMgr, out: Seq<char>) -> Seq<Seq<char>> {
    match mgr {
        PkgMgr::Pacman => pacman_file_paths(lines(out)),
        _ => trim_all(lines(out)),
    }
}

/// The paths in `pacman -Ql` lines, in order.
pub open spec fn pacman_file_paths(ls: Seq<Seq<char>>) -> Seq<Seq<char>>
    decreases ls.len(),
{
    if ls.len() == 0 {
        Seq::empty()
    } else {
        let rest = pacman_file_paths(ls.drop_last());
        match split_once_class(ls.last(), seq![' ']) {
            Some((_, path)) => rest.push(trim(path)),
            None => rest,
        }
    }
}

/// The paths of `pacman -Ql` lines.
fn pacman_paths_exec(ls: &Vec<Vec<char>>) -> (r: Vec<String>)
    ensures
        r.deep_view() == pacman_file_paths(ls.deep_view()),
{
    let ghost all = ls.deep_view();
    let space: Vec<char> = vec![' '];
    assert(space@ =~= seq![' ']);
    let mut files: Vec<String> = Vec::new();
    let mut i: usize = 0;
    assert(all.take(0) =~= Seq::<Seq<char>>::empty());
    while i < ls.len()
        invariant
            i <= ls.len(),
            all == ls.deep_view(),
            space@ == seq![' '],
            files.deep_view() == pacman_file_paths(all.take(i as int)),
        decreases ls.len() - i,
    {
        assert(all.take(i + 1).drop_last() =~= all.take(i as int));
        assert(all.take(i + 1).last() == ls@[i as int]@);
        let line = ls[i].as_slice();
        let ghost before = files.deep_view();
        let k = find_class_from(line, 0, false, space.as_slice());
        assert(line@.skip(0) =~= line@);
        if k < line.len() {
            let path = trim_slice(vstd::slice::slice_subrange(line, k + 1, line.len()));
            assert(line@.skip(k + 1) =~= line@.subrange(k + 1, line@.len() as int));
            files.push(string_of(path));
            assert(files.deep_view() =~= before.push(path@));
        }
        i = i + 1;
    }
    assert(all.take(ls.len() as int) =~= all);
    files
}

/// The lines, each trimmed.
fn trimmed_lines_exec(ls: &Vec<Vec<char>>) -> (r: Vec<String>)
    ensures
        r.deep_view() == trim_all(ls.deep_view()),
{
    let ghost all = ls.deep_view();
    let mut files: Vec<String> = Vec::new();
    let mut i: usize = 0;
    while i < ls.len()
        invariant
            i <= ls.len(),
            all == ls.deep_view(),
            files.deep_view() == trim_all(all.take(i as int)),
        decreases ls.len() - i,
    {
        assert(all[i as int] == ls@[i as int]@);
        let l = trim_slice(ls[i].as_slice());
        let ghost before = files.deep_view();
        files.push(string_of(l));
        assert(files.deep_view() =~= before.push(l@));
        assert(trim_all(all.take(i + 1)) =~= trim_all(all.take(i as int)).push(l@));
        i = i + 1;
    }
    assert(all.take(ls.len() as int) =~= all);
    files
}

/// The files an installed package owns, read from the package manager's
/// answer.
pub fn pkg_file_list(mgr: PkgMgr, out: &str) -> (r: Vec<String>)
    ensures
        r.deep_view() == pkg_files_of(mgr, out@),
{
    let t = chars_of(out);
    let ls = lines_exec(t.as_slice());
    match mgr {
        PkgMgr::Pacman => pacman_paths_exec(&ls),
        _ => trimmed_lines_exec(&ls),
    }
}

/// The owner the host's package managers report, asked in turn: dpkg,
/// then rpm, then pacman. Each argument is that query's output, `None` when
/// the tool is missing or failed.
pub open spec fn pkg_owner_of(
    dpkg_out: Option<Seq<char>>,
    rpm_out: Option<Seq<char>>,
    pacman_out: Option<Seq<char>>,
) -> Option<Seq<char>> {
    let d = match dpkg_out {
        Some(o) => dpkg_owner_of(o),
        None => None,
    };
    let r = match rpm_out {
        Some(o) => rpm_owner_of(o),
        None => None,
    };
    let p = match pacman_out {
        Some(o) => pacman_owner_of(o),
        None => None,
    };
    if d is Some {
        d
    } else if r is Some {
        r
    } else {
        p
    }
}

/// The package that locally owns a soname, from the answers of `dpkg -S`,
/// `rpm -q --whatprovides` and `pacman -Qo` (on the path `ldconfig -p`
/// gives): the first manager that names one.
pub fn pkg_owner(dpkg_out: Option<&str>, rpm_out: Option<&str>, pacman_out: Option<&str>) -> (r:
    Option<String>)
    ensures
        crate::text::opt_view(r) == pkg_owner_of(
            crate::text::opt_str_view(dpkg_out),
            crate::text::opt_str_view(rpm_out),
            crate::text::opt_str_view(pacman_out),
        ),
{
    match dpkg_out {
        Some(o) => match owner_from_dpkg(o) {
            Some(p) => {
                return Some(p);
            },
            None => {},
        },
        None => {},
    }
    match rpm_out {
        Some(o) => match owner_from_rpm(o) {
            Some(p) => {
                return Some(p);
            },
            None => {},
        },
        None => {},
    }
    match pacman_out {
        Some(o) => owner_from_pacman(o),
        None => None,
    }
}

} // verus!
