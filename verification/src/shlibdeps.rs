//! `dpkg-shlibdeps` parity: which package, at which minimum version,
//! provides each shared library a binary needs. This module holds the
//! records, the dpkg `shlibs` and `symbols` file formats, the relation
//! reading, and where a `shlibs.local` override is looked for. Reading the
//! ELF files and the dpkg database directory stays outside.
use vstd::prelude::*;

use crate::plugins::package_index::keyvalue::kv_map;
use crate::sorted::strictly_sorted;
use crate::text::{
    before_class,
    before_class_exec,
    chars_of,
    find_class,
    find_class_from,
    join,
    join_exec,
    lines,
    lines_exec,
    non_empty,
    rfind_exec,
    rfind_str,
    seq_eq,
    split_ws,
    split_ws_exec,
    string_of,
    strip_start,
    strip_start_slice,
    trim,
    trim_slice,
};

verus! {

/// One shared library a binary needs, plus the `(symbol, version)` pairs it
/// references from it (sorted, without duplicates; empty for an unversioned
/// library).
#[derive(Debug, Clone, PartialEq, Eq)]
pub struct LibNeeded {
    pub soname: String,
    pub symbols: Vec<(String, String)>,
}

impl LibNeeded {
    /// A requirement carrying no symbol-version information.
    pub fn bare(soname: &str) -> (r: Self)
        ensures
            r.soname@ == soname@,
            r.symbols@.len() == 0,
    {
        LibNeeded { soname: String::from_str(soname), symbols: Vec::new() }
    }
}

/// The shared-library picture of a set of ELF files.
#[derive(Debug, Default, Clone)]
pub struct Scan {
    /// Non-essential libraries the scanned files need.
    pub needs: Vec<LibNeeded>,
    /// Every non-essential soname found, sorted.
    pub sonames: Vec<String>,
    /// Sonames the scanned tree itself provides, sorted.
    pub provided: Vec<String>,
}

/// One library stanza of a dpkg `symbols` file.
#[derive(Debug, Clone)]
pub struct SymbolsStanza {
    pub soname: String,
    pub package: String,
    /// Header minimum version; `None` for the `#MINVER#` placeholder.
    pub min_version: Option<String>,
    /// `((symbol, version tag), first version providing it)`, in file order;
    /// a later entry for the same pair overrides an earlier one.
    pub symbols: Vec<((String, String), String)>,
}

/// The host's (or a given admin directory's) dpkg dependency information.
#[derive(Debug, Default)]
pub struct ShlibsDb {
    /// `symbols` stanzas, in load order (a later stanza for a soname wins).
    pub symbols: Vec<SymbolsStanza>,
    /// `"library soversion"` -> relation, from `shlibs` files.
    pub shlibs: Vec<(String, String)>,
    /// `shlibs.local` overrides, highest precedence.
    pub local: Vec<(String, String)>,
    /// Real package names present in the status file.
    pub packages: Vec<String>,
    /// `Provides:` name -> first real package providing it.
    pub provides: Vec<(String, String)>,
}

impl ShlibsDb {
    /// True when there is no dpkg dependency information at all.
    pub fn is_empty(&self) -> (r: bool)
        ensures
            r == (self.symbols@.len() == 0 && self.shlibs@.len() == 0 && self.local@.len() == 0),
    {
        self.symbols.len() == 0 && self.shlibs.len() == 0 && self.local.len() == 0
    }
}

/// The outcome of resolving a set of [`LibNeeded`] against a [`ShlibsDb`].
#[derive(Debug, Default, Clone)]
pub struct Resolution {
    /// Versioned relations, deduplicated by package and sorted.
    pub relations: Vec<String>,
    /// Lower-cased package names already covered by `relations`, sorted.
    pub resolved_names: Vec<String>,
    /// Sonames with no `symbols` or `shlibs` entry.
    pub unresolved: Vec<String>,
    /// Required symbols absent from an existing `symbols` stanza.
    pub missing_symbols: Vec<String>,
}

/// Arguments of `lx shlibdeps`.
#[derive(Debug, Clone)]
pub struct ShlibdepsArgs {
    /// ELF executables/libraries, or directories to scan recursively.
    pub paths: Vec<String>,
    /// dpkg administrative directory.
    pub admindir: String,
    /// Warn instead of failing when a library has no dependency information.
    pub ignore_missing_info: bool,
    /// Append `shlibs:Depends=<relations>` to this substvars file.
    pub substvars: Option<String>,
    /// Print the relation to stdout even when `-T` is given.
    pub print: bool,
    /// Additional ELF executables to analyze.
    pub executables: Vec<String>,
    /// The package being built; excluded from the emitted relations.
    pub package: Option<String>,
    /// Packages to treat as declared build dependencies.
    pub depends: Vec<String>,
    /// Additional library search directories.
    pub library_paths: Vec<String>,
    /// objdump binary to use.
    pub objdump: Option<String>,
    /// Override the `shlibs.local` file to read.
    pub shlibs_local: Option<String>,
}

/// Default dpkg administrative directory, matching `dpkg-shlibdeps`.
pub const DEFAULT_DPKG_ADMINDIR: &'static str = "/var/lib/dpkg";

/// The `shlibs.local` candidates, in the order they are tried.
pub open spec fn shlibs_local_candidates() -> Seq<Seq<char>> {
    seq!["debian/shlibs.local"@, "shlibs.local"@]
}

/// The working-directory `shlibs.local` `dpkg-shlibdeps` honours, if one
/// exists: `debian/shlibs.local` first, then `shlibs.local`. `is_file`
/// answers whether a path names a regular file.
pub fn find_shlibs_local<F: Fn(&str) -> bool>(is_file: F) -> (r: Option<&'static str>)
    requires
        forall|p: &str| is_file.requires((p,)),
    ensures
        match r {
            Some(p) => (p@ == shlibs_local_candidates()[0] && is_file.ensures(
                ("debian/shlibs.local",),
                true,
            )) || (p@ == shlibs_local_candidates()[1] && is_file.ensures(
                ("debian/shlibs.local",),
                false,
            ) && is_file.ensures(("shlibs.local",), true)),
            None => is_file.ensures(("debian/shlibs.local",), false) && is_file.ensures(
                ("shlibs.local",),
                false,
            ),
        },
{
    if is_file("debian/shlibs.local") {
        return Some("debian/shlibs.local");
    }
    if is_file("shlibs.local") {
        return Some("shlibs.local");
    }
    None
}

// ---------------------------------------------------------------------------
// Relations and keys
// ---------------------------------------------------------------------------

/// `libfoo.so.1` -> `"libfoo 1"`: around the last `.so.`.
pub open spec fn soname_key_of(soname: Seq<char>) -> Option<Seq<char>> {
    let k = rfind_str(soname, ".so."@);
    if k < 0 {
        None
    } else {
        Some(soname.take(k) + " "@ + soname.skip(k + 4))
    }
}

/// `libfoo.so.1` -> `"libfoo 1"`, the key used by dpkg `shlibs` files.
pub fn soname_key(soname: &str) -> (r: Option<String>)
    ensures
        match r {
            Some(k) => soname_key_of(soname@) == Some(k@),
            None => soname_key_of(soname@) is None,
        },
{
    let s = chars_of(soname);
    let pat = chars_of(".so.");
    proof {
        reveal_strlit(".so.");
    }
    assert(pat@.len() == 4);
    match rfind_exec(s.as_slice(), pat.as_slice()) {
        None => None,
        Some(k) => {
            let n = s.len();
            assert(k + 4 <= n);
            let mut out = crate::text::slice_to_vec(vstd::slice::slice_subrange(s.as_slice(), 0, k));
            out.push(' ');
            crate::text::append_chars(&mut out, vstd::slice::slice_subrange(s.as_slice(), k + 4, s.len()));
            proof {
                reveal_strlit(" ");
            }
            Some(string_of(out.as_slice()))
        },
    }
}

/// The version of a relation's first alternative: the text in its first
/// `(...)`, with leading `>`, `<`, `=` and spaces removed and trimmed; none
/// when empty or without parentheses.
pub open spec fn relation_version(first: Seq<char>) -> Option<Seq<char>> {
    let open = find_class(first, false, seq!['(']);
    if open < 0 {
        None
    } else {
        let after = first.skip(open);
        let c = find_class(after, false, seq![')']);
        if c < 0 {
            None
        } else {
            let inner = trim(first.subrange(open + 1, open + c));
            let v = trim(strip_start(inner, false, seq!['>', '<', '=', ' ']));
            if v.len() > 0 {
                Some(v)
            } else {
                None
            }
        }
    }
}

/// A relation split into its package name and version: of the first `a | b`
/// alternative (trimmed), the first word and the parenthesized version.
pub open spec fn split_relation_of(rel: Seq<char>) -> (Seq<char>, Option<Seq<char>>) {
    let first = trim(before_class(rel, seq!['|']));
    let words = split_ws(first);
    let name = if words.len() > 0 {
        trim(words[0])
    } else {
        trim(first)
    };
    (name, relation_version(first))
}

/// Split a relation into its package name and `(>= ...)` version, if any.
/// Only the first alternative of an `a | b` relation is used.
pub fn split_relation(rel: &str) -> (r: (String, Option<String>))
    ensures
        r.0@ == split_relation_of(rel@).0,
        crate::text::opt_view(r.1) == split_relation_of(rel@).1,
{
    let v = chars_of(rel);
    let bar: Vec<char> = vec!['|'];
    assert(bar@ =~= seq!['|']);
    let first = trim_slice(before_class_exec(v.as_slice(), bar.as_slice()));
    let words = split_ws_exec(first);
    let name = if words.len() > 0 {
        assert(words.deep_view()[0] == words@[0]@);
        string_of(trim_slice(words[0].as_slice()))
    } else {
        string_of(trim_slice(first))
    };
    let open_set: Vec<char> = vec!['('];
    assert(open_set@ =~= seq!['(']);
    let close_set: Vec<char> = vec![')'];
    assert(close_set@ =~= seq![')']);
    let open = find_class_from(first, 0, false, open_set.as_slice());
    assert(first@.skip(0) =~= first@);
    if open == first.len() {
        return (name, None);
    }
    let c = find_class_from(first, open, false, close_set.as_slice());
    if c == first.len() {
        return (name, None);
    }
    let inner = trim_slice(vstd::slice::slice_subrange(first, open + 1, c));
    let ops: Vec<char> = vec!['>', '<', '=', ' '];
    assert(ops@ =~= seq!['>', '<', '=', ' ']);
    let ver = trim_slice(strip_start_slice(inner, false, ops.as_slice()));
    if ver.len() > 0 {
        (name, Some(string_of(ver)))
    } else {
        (name, None)
    }
}

// ---------------------------------------------------------------------------
// The `shlibs` format
// ---------------------------------------------------------------------------

/// The entry a `shlibs` line contributes: `library soversion relation...`
/// gives (`"library soversion"`, the rest joined by spaces); blank lines,
/// `#` comments and lines without a relation give none.
pub open spec fn shlibs_line(line: Seq<char>) -> Option<(Seq<char>, Seq<char>)> {
    let l = trim(line);
    if l.len() == 0 || l[0] == '#' {
        None
    } else {
        let w = split_ws(l);
        let library = if w.len() > 0 {
            w[0]
        } else {
            seq![]
        };
        let soversion = if w.len() > 1 {
            w[1]
        } else {
            seq![]
        };
        let relation = join(
            if w.len() > 2 {
                w.skip(2)
            } else {
                seq![]
            },
            " "@,
        );
        if library.len() == 0 || relation.len() == 0 {
            None
        } else {
            Some((library + " "@ + soversion, relation))
        }
    }
}

/// The entries of a `shlibs` file, in order.
pub open spec fn shlibs_entries(ls: Seq<Seq<char>>) -> Seq<(Seq<char>, Seq<char>)>
    decreases ls.len(),
{
    if ls.len() == 0 {
        seq![]
    } else {
        let p = shlibs_entries(ls.drop_last());
        match shlibs_line(ls.last()) {
            Some(e) => p.push(e),
            None => p,
        }
    }
}

/// The values of a list of string pairs.
pub open spec fn pair_views(ps: Seq<(String, String)>) -> Seq<(Seq<char>, Seq<char>)> {
    ps.map_values(|p: (String, String)| (p.0@, p.1@))
}

/// Parse a dpkg `shlibs` file into `"library soversion" -> relation`
/// entries (`libfoo 1 libfoo1 (>= 1.0)`).
pub fn parse_shlibs_file(text: &str) -> (r: Vec<(String, String)>)
    ensures
        pair_views(r@) == shlibs_entries(lines(text@)),
{
    let t = chars_of(text);
    let ls = lines_exec(t.as_slice());
    let ghost all = ls.deep_view();
    let space = chars_of(" ");
    proof {
        reveal_strlit(" ");
    }
    let mut out: Vec<(String, String)> = Vec::new();
    let mut i: usize = 0;
    assert(all.take(0) =~= Seq::<Seq<char>>::empty());
    while i < ls.len()
        invariant
            i <= ls.len(),
            all == ls.deep_view(),
            space@ == " "@,
            pair_views(out@) == shlibs_entries(all.take(i as int)),
        decreases ls.len() - i,
    {
        assert(all.take(i + 1).drop_last() =~= all.take(i as int));
        assert(all[i as int] == ls@[i as int]@);
        let l = trim_slice(ls[i].as_slice());
        if l.len() > 0 && l[0] != '#' {
            let w = split_ws_exec(l);
            let ghost wv = w.deep_view();
            let library: Vec<char> = if w.len() > 0 {
                assert(wv[0] == w@[0]@);
                crate::text::slice_to_vec(w[0].as_slice())
            } else {
                Vec::new()
            };
            let soversion: Vec<char> = if w.len() > 1 {
                assert(wv[1] == w@[1]@);
                crate::text::slice_to_vec(w[1].as_slice())
            } else {
                Vec::new()
            };
            let mut rest: Vec<Vec<char>> = Vec::new();
            if w.len() > 2 {
                let mut k: usize = 2;
                assert(rest.deep_view() =~= wv.subrange(2, 2));
                while k < w.len()
                    invariant
                        2 <= k <= w.len(),
                        wv == w.deep_view(),
                        rest.deep_view() == wv.subrange(2, k as int),
                    decreases w.len() - k,
                {
                    assert(wv[k as int] == w@[k as int]@);
                    let piece = crate::text::slice_to_vec(w[k].as_slice());
                    assert(piece.deep_view() =~= piece@);
                    let ghost before = rest.deep_view();
                    rest.push(piece);
                    assert(rest.deep_view() =~= before.push(wv[k as int]));
                    assert(wv.subrange(2, k + 1) =~= wv.subrange(2, k as int).push(wv[k as int]));
                    k = k + 1;
                }
                assert(wv.subrange(2, w.len() as int) =~= wv.skip(2));
            } else {
                assert(rest.deep_view() =~= Seq::<Seq<char>>::empty());
            }
            let relation = join_exec(&rest, space.as_slice());
            if library.len() > 0 && relation.len() > 0 {
                let ghost lib_v = library@;
                let mut key = library;
                key.push(' ');
                crate::text::append_chars(&mut key, soversion.as_slice());
                proof {
                    reveal_strlit(" ");
                }
                assert(key@ =~= lib_v + " "@ + soversion@);
                let ghost before = out@;
                out.push((string_of(key.as_slice()), string_of(relation.as_slice())));
                assert(shlibs_line(all[i as int]) == Some((key@, relation@)));
                assert(pair_views(out@) =~= pair_views(before).push((key@, relation@)));
            }
        }
        i = i + 1;
    }
    assert(all.take(ls.len() as int) =~= all);
    out
}

// ---------------------------------------------------------------------------
// Resolution against the symbols database
// ---------------------------------------------------------------------------

/// `name (>= v)`, or just `name` without a version.
pub open spec fn with_min(name: Seq<char>, v: Option<Seq<char>>) -> Seq<char> {
    match v {
        Some(v) => name + " (>= "@ + v + ")"@,
        None => name,
    }
}

fn with_min_exec(name: &str, v: &Option<String>) -> (r: String)
    ensures
        r@ == with_min(name@, crate::text::opt_view(*v)),
{
    let mut s = name.to_string();
    match v {
        Some(v) => {
            s.append(" (>= ");
            s.append(v.as_str());
            s.append(")");
        },
        None => {},
    }
    s
}

/// The symbol entries of a stanza, as values.
pub open spec fn stanza_symbols(st: SymbolsStanza) -> Seq<((Seq<char>, Seq<char>), Seq<char>)> {
    st.symbols@.map_values(
        |e: ((String, String), String)| ((e.0.0@, e.0.1@), e.1@),
    )
}

/// The minimum version recorded for `(sym, ver)`: the last entry for it.
pub open spec fn symbol_min(
    entries: Seq<((Seq<char>, Seq<char>), Seq<char>)>,
    sym: Seq<char>,
    ver: Seq<char>,
) -> Option<Seq<char>>
    decreases entries.len(),
{
    if entries.len() == 0 {
        None
    } else if entries.last().0 == (sym, ver) {
        Some(entries.last().1)
    } else {
        symbol_min(entries.drop_last(), sym, ver)
    }
}

/// Some entry is for the symbol `sym`, whatever its version tag.
pub open spec fn symbol_known(entries: Seq<((Seq<char>, Seq<char>), Seq<char>)>, sym: Seq<char>) -> bool {
    exists|i: int| 0 <= i < entries.len() && (#[trigger] entries[i]).0.0 == sym
}

/// `m` when it is higher than `best` in Debian version order (or `best` is
/// none), else `best`.
pub open spec fn higher(best: Option<Seq<char>>, m: Seq<char>) -> Option<Seq<char>> {
    match best {
        Some(e) => if crate::debversion::version_order(m, e) > 0 {
            Some(m)
        } else {
            Some(e)
        },
        None => Some(m),
    }
}

/// The highest non-empty minimum version among the required symbols.
pub open spec fn best_min(
    entries: Seq<((Seq<char>, Seq<char>), Seq<char>)>,
    req: Seq<(Seq<char>, Seq<char>)>,
) -> Option<Seq<char>>
    decreases req.len(),
{
    if req.len() == 0 {
        None
    } else {
        let b = best_min(entries, req.drop_last());
        match symbol_min(entries, req.last().0, req.last().1) {
            Some(m) => if m.len() > 0 {
                higher(b, m)
            } else {
                b
            },
            None => b,
        }
    }
}

/// The required symbols whose name the stanza does not list at all.
pub open spec fn missing_of(
    entries: Seq<((Seq<char>, Seq<char>), Seq<char>)>,
    req: Seq<(Seq<char>, Seq<char>)>,
) -> Seq<(Seq<char>, Seq<char>)>
    decreases req.len(),
{
    if req.len() == 0 {
        Seq::empty()
    } else {
        let rest = missing_of(entries, req.drop_last());
        let (s, v) = req.last();
        if symbol_min(entries, s, v) is None && !symbol_known(entries, s) {
            rest.push((s, v))
        } else {
            rest
        }
    }
}

/// The relation a `symbols` stanza gives for the required symbols, and the
/// symbols it does not know: none for a stanza without a package; else the
/// package at the highest minimum version of the required symbols, or at the
/// stanza's header version when none matches.
pub open spec fn stanza_resolution(st: SymbolsStanza, req: Seq<(Seq<char>, Seq<char>)>) -> (
    Option<Seq<char>>,
    Seq<(Seq<char>, Seq<char>)>,
) {
    if st.package@.len() == 0 {
        (None, Seq::empty())
    } else {
        let v = match best_min(stanza_symbols(st), req) {
            Some(b) => Some(b),
            None => crate::text::opt_view(st.min_version),
        };
        (Some(with_min(st.package@, v)), missing_of(stanza_symbols(st), req))
    }
}

fn symbol_min_exec(st: &SymbolsStanza, sym: &String, ver: &String) -> (r: Option<String>)
    ensures
        crate::text::opt_view(r) == symbol_min(stanza_symbols(*st), sym@, ver@),
{
    let ghost es = stanza_symbols(*st);
    let mut i: usize = st.symbols.len();
    assert(es.take(i as int) =~= es);
    while i > 0
        invariant
            i <= st.symbols@.len(),
            es == stanza_symbols(*st),
            symbol_min(es, sym@, ver@) == symbol_min(es.take(i as int), sym@, ver@),
        decreases i,
    {
        let e = &st.symbols[i - 1];
        assert(es.take(i as int).last() == es[i - 1]);
        assert(es.take(i as int).drop_last() =~= es.take(i - 1));
        let same_sym = seq_eq(chars_of(e.0.0.as_str()).as_slice(), chars_of(sym.as_str()).as_slice());
        let same_ver = seq_eq(chars_of(e.0.1.as_str()).as_slice(), chars_of(ver.as_str()).as_slice());
        if same_sym && same_ver {
            return Some(e.1.clone());
        }
        i = i - 1;
    }
    None
}

fn symbol_known_exec(st: &SymbolsStanza, sym: &String) -> (r: bool)
    ensures
        r == symbol_known(stanza_symbols(*st), sym@),
{
    let ghost es = stanza_symbols(*st);
    let mut i: usize = 0;
    while i < st.symbols.len()
        invariant
            i <= st.symbols@.len(),
            es == stanza_symbols(*st),
            forall|j: int| 0 <= j < i ==> (#[trigger] es[j]).0.0 != sym@,
        decreases st.symbols.len() - i,
    {
        assert(es[i as int].0.0 == st.symbols@[i as int].0.0@);
        if seq_eq(chars_of(st.symbols[i].0.0.as_str()).as_slice(), chars_of(sym.as_str()).as_slice()) {
            return true;
        }
        i = i + 1;
    }
    false
}

/// Resolves the required `(symbol, version)` pairs against one `symbols`
/// stanza: the relation (if the stanza names a package) and the symbols it
/// does not know.
pub fn resolve_symbols(st: &SymbolsStanza, req: &Vec<(String, String)>) -> (r: (
    Option<String>,
    Vec<(String, String)>,
))
    ensures
        crate::text::opt_view(r.0) == stanza_resolution(*st, pair_views(req@)).0,
        pair_views(r.1@) == stanza_resolution(*st, pair_views(req@)).1,
{
    if st.package.as_str().is_empty() {
        let empty: Vec<(String, String)> = Vec::new();
        assert(pair_views(empty@) =~= Seq::<(Seq<char>, Seq<char>)>::empty());
        return (None, empty);
    }
    let ghost es = stanza_symbols(*st);
    let ghost rq = pair_views(req@);
    let mut best: Option<String> = None;
    let mut missing: Vec<(String, String)> = Vec::new();
    let mut i: usize = 0;
    assert(rq.take(0) =~= Seq::<(Seq<char>, Seq<char>)>::empty());
    assert(pair_views(missing@) =~= Seq::<(Seq<char>, Seq<char>)>::empty());
    while i < req.len()
        invariant
            i <= req@.len(),
            es == stanza_symbols(*st),
            rq == pair_views(req@),
            crate::text::opt_view(best) == best_min(es, rq.take(i as int)),
            pair_views(missing@) == missing_of(es, rq.take(i as int)),
        decreases req.len() - i,
    {
        assert(rq.take(i + 1).drop_last() =~= rq.take(i as int));
        assert(rq.take(i + 1).last() == rq[i as int]);
        let (sym, ver) = (&req[i].0, &req[i].1);
        match symbol_min_exec(st, sym, ver) {
            Some(m) => {
                if !m.as_str().is_empty() {
                    let take = match &best {
                        Some(e) => crate::debversion::is_newer(m.as_str(), e.as_str()),
                        None => true,
                    };
                    if take {
                        best = Some(m);
                    }
                }
            },
            None => {
                if !symbol_known_exec(st, sym) {
                    let ghost before = pair_views(missing@);
                    missing.push((sym.clone(), ver.clone()));
                    assert(pair_views(missing@) =~= before.push(rq[i as int]));
                }
            },
        }
        i = i + 1;
    }
    assert(rq.take(req.len() as int) =~= rq);
    let version = match best {
        Some(b) => Some(b),
        None => st.min_version.clone(),
    };
    (Some(with_min_exec(st.package.as_str(), &version)), missing)
}

// ---------------------------------------------------------------------------
// Resolution: alternatives, virtual packages, the fold over needed libraries
// ---------------------------------------------------------------------------

/// The alternatives of an `a | b` relation, trimmed, blank ones dropped.
pub open spec fn alternatives(rel: Seq<char>) -> Seq<Seq<char>> {
    non_empty(crate::text::trim_all(crate::text::split_class(rel, false, seq!['|'])))
}

/// The package an alternative names, without a `:arch` qualifier.
pub open spec fn alt_base(alt: Seq<char>) -> Seq<char> {
    let w = split_ws(alt);
    before_class(if w.len() > 0 { w[0] } else { Seq::empty() }, seq![':'])
}

/// The test for an alternative whose package is installed.
pub open spec fn installed_test(installed: Seq<Seq<char>>) -> spec_fn(Seq<char>) -> bool {
    |a: Seq<char>| alt_base(a).len() > 0 && installed.contains(alt_base(a))
}

/// Which alternative of a `shlibs` relation is used: the only one, else the
/// first whose package is installed, else the first (the whole relation,
/// trimmed, when it has none).
pub open spec fn chosen_alternative(rel: Seq<char>, installed: Seq<Seq<char>>) -> Seq<char> {
    let alts = alternatives(rel);
    if alts.len() == 0 {
        trim(rel)
    } else if alts.len() == 1 {
        alts[0]
    } else {
        let k = crate::text::first_where(alts, installed_test(installed));
        if k >= 0 {
            alts[k]
        } else {
            alts[0]
        }
    }
}

/// Chooses the alternative of a relation to use; `installed` lists the
/// packages installed on the host.
pub fn choose_alternative(rel: &str, installed: &Vec<String>) -> (r: String)
    ensures
        r@ == chosen_alternative(rel@, installed.deep_view()),
{
    let v = chars_of(rel);
    let bar: Vec<char> = vec!['|'];
    assert(bar@ =~= seq!['|']);
    let pieces = crate::text::split_class_exec(v.as_slice(), false, bar.as_slice());
    let ghost ps = pieces.deep_view();
    let mut trimmed: Vec<Vec<char>> = Vec::new();
    let mut i: usize = 0;
    while i < pieces.len()
        invariant
            i <= pieces.len(),
            ps == pieces.deep_view(),
            trimmed.deep_view() == crate::text::trim_all(ps.take(i as int)),
        decreases pieces.len() - i,
    {
        assert(ps[i as int] == pieces@[i as int]@);
        let t = crate::text::slice_to_vec(trim_slice(pieces[i].as_slice()));
        let ghost tv = t@;
        assert(t.deep_view() =~= tv);
        let ghost before = trimmed.deep_view();
        trimmed.push(t);
        assert(trimmed.deep_view() =~= before.push(tv));
        assert(crate::text::trim_all(ps.take(i + 1)) =~= crate::text::trim_all(ps.take(i as int)).push(tv));
        i = i + 1;
    }
    assert(ps.take(pieces.len() as int) =~= ps);
    let alts = crate::text::keep_non_empty(&trimmed);
    let ghost av = alts.deep_view();
    if alts.len() == 0 {
        return string_of(trim_slice(v.as_slice()));
    }
    if alts.len() == 1 {
        assert(av[0] == alts@[0]@);
        return string_of(alts[0].as_slice());
    }
    let ghost test = installed_test(installed.deep_view());
    proof {
        crate::text::lemma_first_where(av, test);
    }
    let colon: Vec<char> = vec![':'];
    assert(colon@ =~= seq![':']);
    let mut k: usize = 0;
    while k < alts.len()
        invariant
            k <= alts.len(),
            av == alts.deep_view(),
            av == alternatives(rel@),
            av.len() > 1,
            test == installed_test(installed.deep_view()),
            colon@ == seq![':'],
            forall|j: int| 0 <= j < k ==> !test(#[trigger] av[j]),
            -1 <= crate::text::first_where(av, test) < av.len(),
            crate::text::first_where(av, test) >= 0 ==> test(av[crate::text::first_where(av, test)]),
            forall|j: int|
                0 <= j < av.len() && (crate::text::first_where(av, test) < 0 || j
                    < crate::text::first_where(av, test)) ==> !test(#[trigger] av[j]),
        decreases alts.len() - k,
    {
        assert(av[k as int] == alts@[k as int]@);
        let words = split_ws_exec(alts[k].as_slice());
        let empty: Vec<char> = Vec::new();
        let name: &[char] = if words.len() > 0 {
            assert(words.deep_view()[0] == words@[0]@);
            words[0].as_slice()
        } else {
            empty.as_slice()
        };
        let base = before_class_exec(name, colon.as_slice());
        assert(base@ == alt_base(av[k as int]));
        if base.len() > 0 && crate::sorted::holds(installed, base) {
            assert(test(av[k as int]));
            proof {
                let fw = crate::text::first_where(av, test);
                if fw < 0 || fw > k {
                    assert(!test(av[k as int]));
                } else if fw < k {
                    assert(!test(av[fw]));
                }
            }
            return string_of(alts[k].as_slice());
        }
        k = k + 1;
    }
    string_of(alts[0].as_slice())
}

/// The value of the first pair with key `k`.
pub open spec fn first_value(ps: Seq<(Seq<char>, Seq<char>)>, k: Seq<char>) -> Option<Seq<char>>
    decreases ps.len(),
{
    if ps.len() == 0 {
        None
    } else if ps[0].0 == k {
        Some(ps[0].1)
    } else {
        first_value(ps.drop_first(), k)
    }
}

/// The real package behind a virtual one (`libfoo1` provided by
/// `libfoo1t64`), keeping a `:arch` qualifier; `None` when `name` is itself
/// an installed package or nothing provides it.
pub open spec fn real_name_of(db: ShlibsDb, name: Seq<char>) -> Option<Seq<char>> {
    let (base, suffix) = match crate::text::split_once_class(name, seq![':']) {
        Some((b, a)) => (b, ":"@ + a),
        None => (name, Seq::empty()),
    };
    if db.packages.deep_view().contains(base) {
        None
    } else {
        match first_value(pair_views(db.provides@), base) {
            Some(provider) => Some(provider + suffix),
            None => None,
        }
    }
}

/// The real package behind a virtual one, if `name` is virtual.
pub fn virtual_real_name(db: &ShlibsDb, name: &str) -> (r: Option<String>)
    ensures
        crate::text::opt_view(r) == real_name_of(*db, name@),
{
    let v = chars_of(name);
    let colon: Vec<char> = vec![':'];
    assert(colon@ =~= seq![':']);
    let k = find_class_from(v.as_slice(), 0, false, colon.as_slice());
    assert(v@.skip(0) =~= v@);
    let (base, suffix): (&[char], Vec<char>) = if k < v.len() {
        let b = vstd::slice::slice_subrange(v.as_slice(), 0, k);
        let a = vstd::slice::slice_subrange(v.as_slice(), k + 1, v.len());
        assert(b@ =~= v@.take(k as int));
        assert(a@ =~= v@.skip(k + 1));
        let mut s: Vec<char> = vec![':'];
        crate::text::append_chars(&mut s, a);
        proof {
            reveal_strlit(":");
        }
        assert(s@ =~= ":"@ + a@);
        (b, s)
    } else {
        let s: Vec<char> = Vec::new();
        assert(s@ =~= Seq::<char>::empty());
        (v.as_slice(), s)
    };
    assert(match crate::text::split_once_class(name@, seq![':']) {
        Some((b, a)) => b == base@ && ":"@ + a == suffix@,
        None => name@ == base@ && suffix@ == Seq::<char>::empty(),
    });
    if crate::sorted::holds(&db.packages, base) {
        return None;
    }
    let ghost ps = pair_views(db.provides@);
    let mut i: usize = 0;
    assert(ps.skip(0) =~= ps);
    while i < db.provides.len()
        invariant
            i <= db.provides@.len(),
            ps == pair_views(db.provides@),
            first_value(ps, base@) == first_value(ps.skip(i as int), base@),
            !db.packages.deep_view().contains(base@),
            match crate::text::split_once_class(name@, seq![':']) {
                Some((b, a)) => b == base@ && ":"@ + a == suffix@,
                None => name@ == base@ && suffix@ == Seq::<char>::empty(),
            },
        decreases db.provides.len() - i,
    {
        let ghost rest = ps.skip(i as int);
        assert(rest[0] == ps[i as int]);
        assert(rest.drop_first() =~= ps.skip(i + 1));
        assert(ps[i as int] == (db.provides@[i as int].0@, db.provides@[i as int].1@));
        if seq_eq(chars_of(db.provides[i].0.as_str()).as_slice(), base) {
            let mut target = chars_of(db.provides[i].1.as_str());
            crate::text::append_chars(&mut target, suffix.as_slice());
            return Some(string_of(target.as_slice()));
        }
        i = i + 1;
    }
    None
}

/// The index of the last `symbols` stanza for `soname`, or -1.
pub open spec fn stanza_index(stanzas: Seq<SymbolsStanza>, soname: Seq<char>) -> int
    decreases stanzas.len(),
{
    if stanzas.len() == 0 {
        -1
    } else if stanzas.last().soname@ == soname {
        stanzas.len() - 1
    } else {
        stanza_index(stanzas.drop_last(), soname)
    }
}

proof fn lemma_stanza_index(stanzas: Seq<SymbolsStanza>, soname: Seq<char>)
    ensures
        -1 <= stanza_index(stanzas, soname) < stanzas.len(),
    decreases stanzas.len(),
{
    if stanzas.len() > 0 {
        lemma_stanza_index(stanzas.drop_last(), soname);
    }
}

/// The relation `shlibs` data (an override map) gives for a soname key.
pub open spec fn shlibs_relation(
    entries: Seq<(Seq<char>, Seq<char>)>,
    key: Option<Seq<char>>,
    installed: Seq<Seq<char>>,
) -> Option<Seq<char>> {
    match key {
        Some(k) => if crate::plugins::package_index::keyvalue::kv_map(entries).contains_key(k) {
            Some(
                chosen_alternative(
                    crate::plugins::package_index::keyvalue::kv_map(entries)[k],
                    installed,
                ),
            )
        } else {
            None
        },
        None => None,
    }
}

/// The relation for one needed library, and the symbols its `symbols`
/// stanza does not know: a `shlibs.local` override first, then the
/// `symbols` stanza, then the `shlibs` entry.
pub open spec fn relation_for(need: LibNeeded, db: ShlibsDb, installed: Seq<Seq<char>>) -> (
    Option<Seq<char>>,
    Seq<(Seq<char>, Seq<char>)>,
) {
    let key = soname_key_of(need.soname@);
    let local = shlibs_relation(pair_views(db.local@), key, installed);
    if local is Some {
        (local, Seq::empty())
    } else {
        let si = stanza_index(db.symbols@, need.soname@);
        let (srel, smiss) = if si >= 0 {
            stanza_resolution(db.symbols@[si], pair_views(need.symbols@))
        } else {
            (None, Seq::empty())
        };
        if srel is Some {
            (srel, smiss)
        } else {
            (shlibs_relation(pair_views(db.shlibs@), key, installed), smiss)
        }
    }
}

fn shlibs_relation_exec(entries: &Vec<(String, String)>, key: &Option<String>, installed: &Vec<String>) -> (r: Option<String>)
    ensures
        crate::text::opt_view(r) == shlibs_relation(pair_views(entries@), crate::text::opt_view(*key), installed.deep_view()),
{
    match key {
        Some(k) => {
            assert(pair_views(entries@) =~= crate::plugins::package_index::keyvalue::pairs_view(entries@));
            match crate::plugins::package_index::keyvalue::lookup_pairs(entries, k.as_str()) {
                Some(rel) => Some(choose_alternative(rel.as_str(), installed)),
                None => None,
            }
        },
        None => None,
    }
}

/// Finds the relation for one needed library.
fn relation_for_exec(need: &LibNeeded, db: &ShlibsDb, installed: &Vec<String>) -> (r: (Option<String>, Vec<(String, String)>))
    ensures
        crate::text::opt_view(r.0) == relation_for(*need, *db, installed.deep_view()).0,
        pair_views(r.1@) == relation_for(*need, *db, installed.deep_view()).1,
{
    let key = soname_key(need.soname.as_str());
    let local = shlibs_relation_exec(&db.local, &key, installed);
    if local.is_some() {
        let empty: Vec<(String, String)> = Vec::new();
        assert(pair_views(empty@) =~= Seq::<(Seq<char>, Seq<char>)>::empty());
        return (local, empty);
    }
    proof {
        lemma_stanza_index(db.symbols@, need.soname@);
    }
    let mut i: usize = db.symbols.len();
    let mut found = false;
    assert(db.symbols@.take(i as int) =~= db.symbols@);
    while i > 0 && !found
        invariant
            i <= db.symbols@.len(),
            found ==> i > 0 && stanza_index(db.symbols@, need.soname@) == i - 1,
            !found ==> stanza_index(db.symbols@, need.soname@) == stanza_index(db.symbols@.take(i as int), need.soname@),
        decreases i + (if found { 0int } else { 1int }),
    {
        assert(db.symbols@.take(i as int).last() == db.symbols@[i - 1]);
        assert(db.symbols@.take(i as int).drop_last() =~= db.symbols@.take(i - 1));
        if seq_eq(chars_of(db.symbols[i - 1].soname.as_str()).as_slice(), chars_of(need.soname.as_str()).as_slice()) {
            found = true;
        } else {
            i = i - 1;
        }
    }
    if !found {
        assert(db.symbols@.take(0) =~= Seq::<SymbolsStanza>::empty());
    }
    let (srel, smiss) = if found {
        resolve_symbols(&db.symbols[i - 1], &need.symbols)
    } else {
        let empty: Vec<(String, String)> = Vec::new();
        assert(pair_views(empty@) =~= Seq::<(Seq<char>, Seq<char>)>::empty());
        (None, empty)
    };
    if srel.is_some() {
        (srel, smiss)
    } else {
        (shlibs_relation_exec(&db.shlibs, &key, installed), smiss)
    }
}

/// A package's entry after another relation on it: a version replaces the
/// recorded one when it is higher (or none is recorded yet).
pub open spec fn bump(
    m: Map<Seq<char>, Option<Seq<char>>>,
    name: Seq<char>,
    ver: Option<Seq<char>>,
) -> Map<Seq<char>, Option<Seq<char>>> {
    let old = if m.contains_key(name) {
        m[name]
    } else {
        None
    };
    m.insert(
        name,
        match ver {
            Some(v) => higher(old, v),
            None => old,
        },
    )
}

/// How a symbol missing from a stanza is reported.
pub open spec fn missing_line(p: (Seq<char>, Seq<char>), soname: Seq<char>) -> Seq<char> {
    p.0 + "@"@ + p.1 + " (from "@ + soname + ")"@
}

/// The missing symbols of a library, reported.
pub open spec fn missing_lines(miss: Seq<(Seq<char>, Seq<char>)>, soname: Seq<char>) -> Seq<
    Seq<char>,
> {
    miss.map_values(|p: (Seq<char>, Seq<char>)| missing_line(p, soname))
}

/// What resolution has gathered so far: each package with its highest
/// minimum version, the unresolved sonames, the missing-symbol reports.
pub type ResolveState = (Map<Seq<char>, Option<Seq<char>>>, Seq<Seq<char>>, Seq<Seq<char>>);

/// One needed library folded in. Essential and self-provided sonames are
/// skipped; a relation whose package name is empty, or no relation at all,
/// leaves the soname unresolved; a virtual package is replaced by the real
/// one providing it.
pub open spec fn resolve_step(
    s: ResolveState,
    need: LibNeeded,
    db: ShlibsDb,
    essential: Seq<Seq<char>>,
    provided: Seq<Seq<char>>,
    installed: Seq<Seq<char>>,
) -> ResolveState {
    let so = need.soname@;
    if essential.contains(so) || provided.contains(so) {
        s
    } else {
        let (rel, miss) = relation_for(need, db, installed);
        let missing = s.2 + missing_lines(miss, so);
        match rel {
            Some(r) => {
                let (name, ver) = split_relation_of(r);
                if name.len() == 0 {
                    (s.0, s.1.push(so), missing)
                } else {
                    let target = match real_name_of(db, name) {
                        Some(x) => x,
                        None => name,
                    };
                    (bump(s.0, target, ver), s.1, missing)
                }
            },
            None => (s.0, s.1.push(so), missing),
        }
    }
}

/// All needed libraries folded in, in order.
pub open spec fn resolve_fold(
    needs: Seq<LibNeeded>,
    db: ShlibsDb,
    essential: Seq<Seq<char>>,
    provided: Seq<Seq<char>>,
    installed: Seq<Seq<char>>,
) -> ResolveState
    decreases needs.len(),
{
    if needs.len() == 0 {
        (Map::empty(), Seq::empty(), Seq::empty())
    } else {
        resolve_step(
            resolve_fold(needs.drop_last(), db, essential, provided, installed),
            needs.last(),
            db,
            essential,
            provided,
            installed,
        )
    }
}

/// The packages of the map in sorted order.
pub open spec fn sorted_packages(m: Map<Seq<char>, Option<Seq<char>>>) -> Seq<Seq<char>> {
    choose|ks: Seq<Seq<char>>| crate::sorted::strictly_sorted(ks) && ks.to_set() == m.dom()
}

/// Whether the package being built excludes `name` (compared without a
/// `:arch` qualifier).
pub open spec fn is_excluded(name: Seq<char>, exclude: Option<Seq<char>>) -> bool {
    match exclude {
        Some(ex) => before_class(name, seq![':']) == ex,
        None => false,
    }
}

/// The relations of the packages `names` (in that order), leaving out the
/// excluded one.
pub open spec fn emitted_relations(
    names: Seq<Seq<char>>,
    m: Map<Seq<char>, Option<Seq<char>>>,
    exclude: Option<Seq<char>>,
) -> Seq<Seq<char>>
    decreases names.len(),
{
    if names.len() == 0 {
        Seq::empty()
    } else {
        let rest = emitted_relations(names.drop_last(), m, exclude);
        if is_excluded(names.last(), exclude) {
            rest
        } else {
            rest.push(with_min(names.last(), m[names.last()]))
        }
    }
}

/// The lower-cased names of the packages `names`, leaving out the excluded
/// one.
pub open spec fn emitted_names(names: Seq<Seq<char>>, exclude: Option<Seq<char>>) -> Seq<
    Seq<char>,
>
    decreases names.len(),
{
    if names.len() == 0 {
        Seq::empty()
    } else {
        let rest = emitted_names(names.drop_last(), exclude);
        if is_excluded(names.last(), exclude) {
            rest
        } else {
            rest.push(crate::text::to_lower(names.last()))
        }
    }
}

/// The views of a list of package entries.
pub open spec fn entry_views(ps: Seq<(String, Option<String>)>) -> Seq<(Seq<char>, Option<Seq<char>>)> {
    ps.map_values(|p: (String, Option<String>)| (p.0@, crate::text::opt_view(p.1)))
}

/// Records another relation on package `name` at version `ver`.
fn bump_exec(by_pkg: &mut Vec<(String, Option<String>)>, name: String, ver: Option<String>)
    requires
        crate::assoc::unique_keys(entry_views(old(by_pkg)@)),
    ensures
        crate::assoc::unique_keys(entry_views(final(by_pkg)@)),
        crate::assoc::assoc_map(entry_views(final(by_pkg)@)) == bump(
            crate::assoc::assoc_map(entry_views(old(by_pkg)@)),
            name@,
            crate::text::opt_view(ver),
        ),
{
    let ghost es = entry_views(by_pkg@);
    proof {
        crate::assoc::lemma_assoc_lookup(es);
    }
    let mut i: usize = 0;
    let mut found = false;
    while i < by_pkg.len() && !found
        invariant
            i <= by_pkg@.len(),
            es == entry_views(by_pkg@),
            found ==> i < by_pkg@.len() && es[i as int].0 == name@,
            forall|j: int| 0 <= j < i ==> (#[trigger] es[j]).0 != name@,
        decreases by_pkg.len() - i + (if found { 0int } else { 1int }),
    {
        assert(es[i as int].0 == by_pkg@[i as int].0@);
        if seq_eq(chars_of(by_pkg[i].0.as_str()).as_slice(), chars_of(name.as_str()).as_slice()) {
            found = true;
        } else {
            i = i + 1;
        }
    }
    if found {
        let old_v = by_pkg[i].1.clone();
        let new_v = match ver {
            Some(v) => match old_v {
                Some(e) => if crate::debversion::is_newer(v.as_str(), e.as_str()) {
                    Some(v)
                } else {
                    Some(e)
                },
                None => Some(v),
            },
            None => old_v,
        };
        let ghost nv = crate::text::opt_view(new_v);
        by_pkg.set(i, (name, new_v));
        proof {
            assert(es[i as int].0 == name@);
            assert(entry_views(by_pkg@) =~= es.update(i as int, (es[i as int].0, nv)));
            crate::assoc::lemma_assoc_update(es, i as int, nv);
        }
    } else {
        let ghost nv = crate::text::opt_view(ver);
        let ghost nm = name@;
        proof {
            assert(i == by_pkg@.len());
            assert(!crate::assoc::assoc_map(es).contains_key(nm)) by {
                if crate::assoc::assoc_map(es).contains_key(nm) {
                    let j = choose|j: int| 0 <= j < es.len() && (#[trigger] es[j]).0 == nm;
                }
            }
        }
        by_pkg.push((name, ver));
        proof {
            assert(entry_views(by_pkg@) =~= es.push((nm, nv)));
            crate::assoc::lemma_assoc_push(es, nm, nv);
        }
    }
}

/// Resolves the needed libraries to versioned Debian relations: a
/// `shlibs.local` override first, then the `symbols` database, then
/// `shlibs`, as `dpkg-shlibdeps` does. Sonames in `essential` (the C
/// runtime) or `self_provided` are skipped; `installed` lists the host's
/// installed packages, which decide between the alternatives of a
/// relation; `exclude_pkg` is the package being built. The relations come
/// one per package, sorted by name, each at the highest minimum version
/// required.
pub fn resolve(
    needs: &Vec<LibNeeded>,
    db: &ShlibsDb,
    exclude_pkg: Option<&str>,
    self_provided: &Vec<String>,
    essential: &Vec<String>,
    installed: &Vec<String>,
) -> (r: Resolution)
    ensures
        ({
            let s = resolve_fold(
                needs@,
                *db,
                essential.deep_view(),
                self_provided.deep_view(),
                installed.deep_view(),
            );
            &&& r.relations.deep_view() == emitted_relations(
                sorted_packages(s.0),
                s.0,
                crate::text::opt_str_view(exclude_pkg),
            )
            &&& r.resolved_names.deep_view() == crate::sorted::sorted_set(
                emitted_names(sorted_packages(s.0), crate::text::opt_str_view(exclude_pkg)),
            )
            &&& r.unresolved.deep_view() == s.1
            &&& r.missing_symbols.deep_view() == s.2
        }),
        crate::sorted::strictly_sorted(r.resolved_names.deep_view()),
{
    let ghost ess = essential.deep_view();
    let ghost prov = self_provided.deep_view();
    let ghost inst = installed.deep_view();
    let mut by_pkg: Vec<(String, Option<String>)> = Vec::new();
    let mut unresolved: Vec<String> = Vec::new();
    let mut missing: Vec<String> = Vec::new();
    let mut i: usize = 0;
    assert(needs@.take(0) =~= Seq::<LibNeeded>::empty());
    assert(crate::assoc::assoc_map(entry_views(by_pkg@)) =~= Map::<Seq<char>, Option<Seq<char>>>::empty());
    while i < needs.len()
        invariant
            i <= needs@.len(),
            ess == essential.deep_view(),
            prov == self_provided.deep_view(),
            inst == installed.deep_view(),
            crate::assoc::unique_keys(entry_views(by_pkg@)),
            ({
                let s = resolve_fold(needs@.take(i as int), *db, ess, prov, inst);
                &&& crate::assoc::assoc_map(entry_views(by_pkg@)) == s.0
                &&& unresolved.deep_view() == s.1
                &&& missing.deep_view() == s.2
            }),
        decreases needs.len() - i,
    {
        assert(needs@.take(i + 1).drop_last() =~= needs@.take(i as int));
        assert(needs@.take(i + 1).last() == needs@[i as int]);
        let need = &needs[i];
        let so = chars_of(need.soname.as_str());
        if crate::sorted::holds(essential, so.as_slice()) || crate::sorted::holds(self_provided, so.as_slice()) {
            i = i + 1;
            continue;
        }
        let (rel, miss) = relation_for_exec(need, db, installed);
        let ghost mv = pair_views(miss@);
        let ghost start = missing.deep_view();
        let mut k: usize = 0;
        while k < miss.len()
            invariant
                k <= miss@.len(),
                mv == pair_views(miss@),
                missing.deep_view() == start + missing_lines(mv.take(k as int), need.soname@),
            decreases miss.len() - k,
        {
            let mut line = miss[k].0.clone();
            line.append("@");
            line.append(miss[k].1.as_str());
            line.append(" (from ");
            line.append(need.soname.as_str());
            line.append(")");
            assert(mv[k as int] == (miss@[k as int].0@, miss@[k as int].1@));
            let ghost before = missing.deep_view();
            let ghost lv = line@;
            missing.push(line);
            assert(missing.deep_view() =~= before.push(lv));
            assert(missing_lines(mv.take(k + 1), need.soname@) =~= missing_lines(mv.take(k as int), need.soname@).push(lv));
            k = k + 1;
        }
        assert(mv.take(miss.len() as int) =~= mv);
        match rel {
            Some(r) => {
                let (name, ver) = split_relation(r.as_str());
                if name.as_str().is_empty() {
                    let ghost before = unresolved.deep_view();
                    unresolved.push(need.soname.clone());
                    assert(unresolved.deep_view() =~= before.push(need.soname@));
                } else {
                    let target = match virtual_real_name(db, name.as_str()) {
                        Some(x) => x,
                        None => name,
                    };
                    bump_exec(&mut by_pkg, target, ver);
                }
            },
            None => {
                let ghost before = unresolved.deep_view();
                unresolved.push(need.soname.clone());
                assert(unresolved.deep_view() =~= before.push(need.soname@));
            },
        }
        i = i + 1;
    }
    assert(needs@.take(needs.len() as int) =~= needs@);
    let ghost es = entry_views(by_pkg@);
    let ghost m = crate::assoc::assoc_map(es);
    let mut keys: Vec<String> = Vec::new();
    let mut j: usize = 0;
    while j < by_pkg.len()
        invariant
            j <= by_pkg@.len(),
            es == entry_views(by_pkg@),
            keys.deep_view() == es.map_values(|p: (Seq<char>, Option<Seq<char>>)| p.0).take(j as int),
        decreases by_pkg.len() - j,
    {
        let ghost before = keys.deep_view();
        keys.push(by_pkg[j].0.clone());
        assert(keys.deep_view() =~= before.push(es[j as int].0));
        j = j + 1;
    }
    proof {
        assert(es.map_values(|p: (Seq<char>, Option<Seq<char>>)| p.0).take(by_pkg@.len() as int)
            =~= es.map_values(|p: (Seq<char>, Option<Seq<char>>)| p.0));
        crate::assoc::lemma_assoc_keys(es);
        crate::assoc::lemma_assoc_lookup(es);
    }
    let names = crate::sorted::sorted_set_exec(&keys);
    let ghost nv = names.deep_view();
    proof {
        assert(crate::sorted::strictly_sorted(nv) && nv.to_set() == m.dom());
        let ks = sorted_packages(m);
        crate::sorted::lemma_strictly_sorted_unique(ks, nv);
    }
    let ghost ex = crate::text::opt_str_view(exclude_pkg);
    let colon: Vec<char> = vec![':'];
    assert(colon@ =~= seq![':']);
    let mut relations: Vec<String> = Vec::new();
    let mut lowered: Vec<String> = Vec::new();
    let mut n: usize = 0;
    assert(nv.take(0) =~= Seq::<Seq<char>>::empty());
    while n < names.len()
        invariant
            n <= names.len(),
            nv == names.deep_view(),
            nv.to_set() == m.dom(),
            es == entry_views(by_pkg@),
            m == crate::assoc::assoc_map(es),
            ex == crate::text::opt_str_view(exclude_pkg),
            colon@ == seq![':'],
            forall|a: int| 0 <= a < es.len() ==> #[trigger] m.contains_key(es[a].0) && m[es[a].0] == es[a].1,
            forall|key: Seq<char>| #[trigger] m.contains_key(key) ==> exists|a: int| 0 <= a < es.len() && (#[trigger] es[a]).0 == key,
            relations.deep_view() == emitted_relations(nv.take(n as int), m, ex),
            lowered.deep_view() == emitted_names(nv.take(n as int), ex),
        decreases names.len() - n,
    {
        assert(nv.take(n + 1).drop_last() =~= nv.take(n as int));
        assert(nv.take(n + 1).last() == nv[n as int]);
        assert(nv[n as int] == names@[n as int]@);
        let name = &names[n];
        let nc = chars_of(name.as_str());
        let base = before_class_exec(nc.as_slice(), colon.as_slice());
        let excluded = match exclude_pkg {
            Some(e) => seq_eq(base, chars_of(e).as_slice()),
            None => false,
        };
        if !excluded {
            assert(nv.to_set().contains(nv[n as int]));
            let mut a: usize = 0;
            let mut hit = false;
            while a < by_pkg.len() && !hit
                invariant
                    a <= by_pkg@.len(),
                    es == entry_views(by_pkg@),
                    nc@ == name@,
                    hit ==> a < by_pkg@.len() && es[a as int].0 == name@,
                    forall|b: int| 0 <= b < a ==> (#[trigger] es[b]).0 != name@,
                decreases by_pkg.len() - a + (if hit { 0int } else { 1int }),
            {
                assert(es[a as int].0 == by_pkg@[a as int].0@);
                if seq_eq(chars_of(by_pkg[a].0.as_str()).as_slice(), nc.as_slice()) {
                    hit = true;
                } else {
                    a = a + 1;
                }
            }
            if !hit {
                proof {
                    let b = choose|b: int| 0 <= b < es.len() && (#[trigger] es[b]).0 == name@;
                    assert(false);
                }
                return Resolution { relations, resolved_names: Vec::new(), unresolved, missing_symbols: missing };
            }
            assert(es[a as int].1 == crate::text::opt_view(by_pkg@[a as int].1));
            let rel = with_min_exec(name.as_str(), &by_pkg[a].1);
            let ghost before = relations.deep_view();
            let ghost rv = rel@;
            relations.push(rel);
            assert(relations.deep_view() =~= before.push(rv));
            let low = crate::text::lower_vec(nc.as_slice());
            let ghost lbefore = lowered.deep_view();
            lowered.push(string_of(low.as_slice()));
            assert(lowered.deep_view() =~= lbefore.push(low@));
        }
        n = n + 1;
    }
    assert(nv.take(names.len() as int) =~= nv);
    let resolved_names = crate::sorted::sorted_set_exec(&lowered);
    Resolution { relations, resolved_names, unresolved, missing_symbols: missing }
}

// ---------------------------------------------------------------------------
// Each package gets the highest minimum version required of it
// ---------------------------------------------------------------------------

/// What one needed library asks of the resolution: the (real) package it
/// resolves to and the minimum version, when it resolves to a package.
pub open spec fn need_requirement(
    need: LibNeeded,
    db: ShlibsDb,
    essential: Seq<Seq<char>>,
    provided: Seq<Seq<char>>,
    installed: Seq<Seq<char>>,
) -> Option<(Seq<char>, Option<Seq<char>>)> {
    let so = need.soname@;
    if essential.contains(so) || provided.contains(so) {
        None
    } else {
        match relation_for(need, db, installed).0 {
            Some(r) => {
                let (name, ver) = split_relation_of(r);
                if name.len() == 0 {
                    None
                } else {
                    Some(
                        (
                            match real_name_of(db, name) {
                                Some(x) => x,
                                None => name,
                            },
                            ver,
                        ),
                    )
                }
            },
            None => None,
        }
    }
}

/// The package a requirement names.
pub open spec fn required_package(r: Option<(Seq<char>, Option<Seq<char>>)>) -> Seq<char> {
    match r {
        Some((t, _)) => t,
        None => Seq::empty(),
    }
}

/// The minimum version a requirement asks for.
pub open spec fn required_version(r: Option<(Seq<char>, Option<Seq<char>>)>) -> Option<Seq<char>> {
    match r {
        Some((_, v)) => v,
        None => None,
    }
}

/// A version, or nothing.
pub open spec fn version_or_empty(v: Option<Seq<char>>) -> Seq<char> {
    match v {
        Some(x) => x,
        None => Seq::empty(),
    }
}

proof fn lemma_step_map(
    s: ResolveState,
    need: LibNeeded,
    db: ShlibsDb,
    essential: Seq<Seq<char>>,
    provided: Seq<Seq<char>>,
    installed: Seq<Seq<char>>,
)
    ensures
        resolve_step(s, need, db, essential, provided, installed).0 == match need_requirement(
            need,
            db,
            essential,
            provided,
            installed,
        ) {
            Some((t, v)) => bump(s.0, t, v),
            None => s.0,
        },
{
}

/// Every library that resolves to a package at a minimum version leaves
/// that package in the result at that version or a higher one: each
/// package carries the highest minimum version required of it.
pub proof fn lemma_resolution_keeps_highest(
    needs: Seq<LibNeeded>,
    db: ShlibsDb,
    essential: Seq<Seq<char>>,
    provided: Seq<Seq<char>>,
    installed: Seq<Seq<char>>,
    i: int,
)
    requires
        0 <= i < needs.len(),
        need_requirement(needs[i], db, essential, provided, installed) matches Some((_, Some(_))),
    ensures
        ({
            let r = need_requirement(needs[i], db, essential, provided, installed);
            let m = resolve_fold(needs, db, essential, provided, installed).0;
            &&& m.contains_key(required_package(r))
            &&& m[required_package(r)] is Some
            &&& crate::debversion::version_order(
                version_or_empty(m[required_package(r)]),
                version_or_empty(required_version(r)),
            ) >= 0
        }),
    decreases needs.len(),
{
    let r = need_requirement(needs[i], db, essential, provided, installed);
    let t = required_package(r);
    let v = version_or_empty(required_version(r));
    let last = needs.len() - 1;
    let prev = resolve_fold(needs.drop_last(), db, essential, provided, installed);
    lemma_step_map(prev, needs[last], db, essential, provided, installed);
    let rl = need_requirement(needs[last], db, essential, provided, installed);
    crate::debversion::lemma_version_order_antisymmetric(v, v);
    if i == last {
        if prev.0.contains_key(t) && prev.0[t] is Some {
            crate::debversion::lemma_version_order_antisymmetric(v, version_or_empty(prev.0[t]));
        }
    } else {
        assert(needs.drop_last()[i] == needs[i]);
        lemma_resolution_keeps_highest(needs.drop_last(), db, essential, provided, installed, i);
        let w = version_or_empty(prev.0[t]);
        match rl {
            Some((t2, Some(v2))) => {
                if t2 == t {
                    crate::debversion::lemma_version_order_antisymmetric(v2, w);
                    crate::debversion::lemma_version_order_antisymmetric(w, v);
                    if crate::debversion::version_order(v2, w) > 0 {
                        crate::debversion::lemma_version_order_antisymmetric(v2, v);
                        crate::debversion::lemma_version_order_transitive(v, w, v2);
                    }
                }
            },
            _ => {},
        }
    }
}

} // verus!
