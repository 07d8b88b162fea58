//! The LX community index backend: recipes plus prebuilt binaries per
//! release. This module holds where a release's prebuilts live, how the
//! checksum list and a recipe's description are read, how a prebuilt file
//! name encodes its architecture and distribution, and which prebuilt fits
//! the host. The git checkout, the directory walks and the install stay
//! outside.
use vstd::prelude::*;

use crate::plugins::package_index::keyvalue::{lemma_kv_map_keys, pairs_view, KeyValues};
use crate::pattern::{regex_compiles, regex_compiles_of, regex_is_match, regex_is_match_of};
use crate::plugins::package_index::repology::search_pattern;
use crate::plugins::package_index::{user_cache_dir, IndexHit, SearchError};
use crate::plugins::plugin::Plugin;
use crate::plugins::staging::{join_path, path_join};
use crate::sorted::{sorted_unique, strictly_sorted};
use crate::text::{
    chars_of, ends_with, ends_with_exec, find_exec, find_str, lines, lines_exec, rfind_exec,
    rfind_str, seq_eq, starts_with, starts_with_exec, string_of, strip, strip_slice, trim,
    trim_slice,
};

verus! {

/// One recipe in the community index: its package.yaml and optional README.
#[derive(Debug, Clone)]
pub struct RecipeEntry {
    pub yaml: String,
    pub readme: Option<String>,
}

/// Parsed prebuilt-filename fields.
#[derive(Debug, Clone, PartialEq, Eq)]
pub struct ParsedName {
    pub arch: String,
    pub dist: String,
}

/// A configured LX community index and its cache checkout.
pub struct LxCommunitySource {
    pub name: String,
    pub cache: String,
}

/// The checkout directory under a base directory (`/tmp` when there is
/// none).
pub open spec fn index_cache_under(base: Option<Seq<char>>) -> Seq<char> {
    match base {
        Some(b) => b + "/lx/index"@,
        None => "/tmp/lx/index"@,
    }
}

impl LxCommunitySource {
    /// A source checked out under the user's cache directory.
    pub fn new(name: &str) -> (s: Self)
        ensures
            s.name@ == name@,
            exists|base: Option<Seq<char>>| s.cache@ == index_cache_under(base),
    {
        let base = user_cache_dir();
        let ghost b = crate::text::opt_view(base);
        let s = Self::with_cache_base(name, base);
        assert(s.cache@ == index_cache_under(b));
        s
    }

    /// A source checked out under `base` (the cache directory found for this
    /// user, if any).
    pub fn with_cache_base(name: &str, base: Option<String>) -> (s: Self)
        ensures
            s.name@ == name@,
            s.cache@ == index_cache_under(crate::text::opt_view(base)),
    {
        let cache = match base {
            Some(b) => {
                let mut c = b;
                c.append("/lx/index");
                c
            },
            None => String::from_str("/tmp/lx/index"),
        };
        LxCommunitySource { name: String::from_str(name), cache }
    }

    /// The configured instance label.
    pub fn instance_name(&self) -> (r: &str)
        ensures
            r@ == self.name@,
    {
        self.name.as_str()
    }

    /// `<cache>/recipes/<package>/releases/<tag>`.
    pub fn prebuilt_dir(&self, package: &str, tag: &str) -> (r: String)
        ensures
            r@ == join_path(
                join_path(join_path(join_path(self.cache@, "recipes"@), package@), "releases"@),
                tag@,
            ),
    {
        let a = path_join(self.cache.as_str(), "recipes");
        let b = path_join(a.as_str(), package);
        let c = path_join(b.as_str(), "releases");
        path_join(c.as_str(), tag)
    }

    /// How stale the checkout is, given the age of its last fetch in seconds
    /// (`None` when unknown): the age in hours once it reaches a day.
    pub fn stale(age_secs: Option<u64>) -> (r: Option<u64>)
        ensures
            r == match age_secs {
                Some(s) => if s / 3600 >= 24 {
                    Some(s / 3600)
                } else {
                    None
                },
                None => None,
            },
    {
        match age_secs {
            Some(s) => {
                let age = s / 3600;
                if age >= 24 {
                    Some(age)
                } else {
                    None
                }
            },
            None => None,
        }
    }

    /// The description a recipe's package.yaml declares: the first
    /// `description:` or `summary:` line (trimmed) with a non-empty value,
    /// quotes removed; empty when there is none.
    pub fn desc_from_yaml(yaml: &str) -> (r: String)
        ensures
            r@ == yaml_description(lines(yaml@)),
    {
        let t = chars_of(yaml);
        let ls = lines_exec(t.as_slice());
        let ghost all = ls.deep_view();
        let d = chars_of("description:");
        let s = chars_of("summary:");
        let quote: Vec<char> = vec!['"'];
        assert(quote@ =~= seq!['"']);
        let mut i: usize = 0;
        assert(all.skip(0) =~= all);
        while i < ls.len()
            invariant
                i <= ls.len(),
                all == ls.deep_view(),
                all == lines(yaml@),
                d@ == "description:"@,
                s@ == "summary:"@,
                quote@ == seq!['"'],
                yaml_description(all) == yaml_description(all.skip(i as int)),
            decreases ls.len() - i,
        {
            assert(all[i as int] == ls@[i as int]@);
            assert(all.skip(i as int).drop_first() =~= all.skip(i + 1));
            assert(all.skip(i as int)[0] == all[i as int]);
            let line = trim_slice(ls[i].as_slice());
            let rest: Option<&[char]> = if starts_with_exec(line, d.as_slice()) {
                Some(vstd::slice::slice_subrange(line, d.len(), line.len()))
            } else if starts_with_exec(line, s.as_slice()) {
                Some(vstd::slice::slice_subrange(line, s.len(), line.len()))
            } else {
                None
            };
            match rest {
                Some(r) => {
                    let v = strip_slice(trim_slice(r), false, quote.as_slice());
                    if v.len() > 0 {
                        return string_of(v);
                    }
                },
                None => {},
            }
            i = i + 1;
        }
        String::new()
    }
}

impl Plugin for LxCommunitySource {
    open spec fn spec_name(&self) -> Seq<char> {
        "lx-community"@
    }

    fn name(&self) -> (r: &'static str) {
        "lx-community"
    }

    open spec fn spec_description(&self) -> Seq<char> {
        "LX community index (recipes + per-release prebuilts)"@
    }

    fn description(&self) -> (r: &'static str) {
        "LX community index (recipes + per-release prebuilts)"
    }
}

/// The value a recipe line declares as description, if any.
pub open spec fn description_value(line: Seq<char>) -> Option<Seq<char>> {
    let t = trim(line);
    let rest = if starts_with(t, "description:"@) {
        Some(t.skip("description:"@.len() as int))
    } else if starts_with(t, "summary:"@) {
        Some(t.skip("summary:"@.len() as int))
    } else {
        None
    };
    match rest {
        Some(r) => {
            let v = strip(trim(r), false, seq!['"']);
            if v.len() > 0 {
                Some(v)
            } else {
                None
            }
        },
        None => None,
    }
}

/// The first declared description among the lines, or empty.
pub open spec fn yaml_description(ls: Seq<Seq<char>>) -> Seq<char>
    decreases ls.len(),
{
    if ls.len() == 0 {
        seq![]
    } else {
        match description_value(ls[0]) {
            Some(v) => v,
            None => yaml_description(ls.drop_first()),
        }
    }
}

// ---------------------------------------------------------------------------
// Checksum lists
// ---------------------------------------------------------------------------

/// The number of bytes a char takes in UTF-8.
pub open spec fn utf8_char_len(c: char) -> nat {
    let u = c as u32;
    if u < 0x80 {
        1
    } else if u < 0x800 {
        2
    } else if u < 0x10000 {
        3
    } else {
        4
    }
}

/// The number of bytes a text takes in UTF-8 (`str::len`).
pub open spec fn utf8_len(s: Seq<char>) -> nat
    decreases s.len(),
{
    if s.len() == 0 {
        0
    } else {
        utf8_len(s.drop_last()) + utf8_char_len(s.last())
    }
}

/// Whether `v` takes exactly 64 bytes in UTF-8.
fn is_64_bytes(v: &[char]) -> (r: bool)
    ensures
        r == (utf8_len(v@) == 64),
{
    let mut n: usize = 0;
    let mut i: usize = 0;
    while i < v.len()
        invariant
            i <= v@.len(),
            n == utf8_len(v@.take(i as int)),
            n <= 64,
        decreases v@.len() - i,
    {
        assert(v@.take(i + 1).drop_last() =~= v@.take(i as int));
        let c = v[i] as u32;
        let w: usize = if c < 0x80 {
            1
        } else if c < 0x800 {
            2
        } else if c < 0x10000 {
            3
        } else {
            4
        };
        if n + w > 64 {
            proof {
                lemma_utf8_len_grows(v@, i + 1);
            }
            return false;
        }
        n = n + w;
        i = i + 1;
    }
    assert(v@.take(v@.len() as int) =~= v@);
    n == 64
}

proof fn lemma_utf8_len_grows(s: Seq<char>, i: int)
    requires
        0 <= i <= s.len(),
    ensures
        utf8_len(s.take(i)) <= utf8_len(s),
    decreases s.len() - i,
{
    if i < s.len() {
        lemma_utf8_len_grows(s, i + 1);
        assert(s.take(i + 1).drop_last() =~= s.take(i));
    } else {
        assert(s.take(i) =~= s);
    }
}

/// The entry a `checksums.sha256` line contributes: none for a blank line
/// or a `#` comment; an error for a line without the two-space separator;
/// otherwise the file name (with `*` markers and whitespace trimmed) and
/// the digest, kept when the digest is 64 bytes and the name non-empty.
pub open spec fn checksum_line(line: Seq<char>) -> Result<Option<(Seq<char>, Seq<char>)>, ()> {
    let l = trim(line);
    if l.len() == 0 || l[0] == '#' {
        Ok(None)
    } else {
        let k = find_str(l, "  "@);
        if k < 0 {
            Err(())
        } else {
            let sha = l.take(k);
            let name = trim(strip(l.skip(k + 2), false, seq!['*']));
            if utf8_len(sha) == 64 && name.len() > 0 {
                Ok(Some((name, sha)))
            } else {
                Ok(None)
            }
        }
    }
}

/// The (file name, digest) entries of a checksum list, in order; `None`
/// when a line lacks its file name.
pub open spec fn checksum_pairs(ls: Seq<Seq<char>>) -> Option<Seq<(Seq<char>, Seq<char>)>>
    decreases ls.len(),
{
    if ls.len() == 0 {
        Some(seq![])
    } else {
        match checksum_pairs(ls.drop_last()) {
            None => None,
            Some(p) => match checksum_line(ls.last()) {
                Err(_) => None,
                Ok(None) => Some(p),
                Ok(Some(e)) => Some(p.push(e)),
            },
        }
    }
}

/// Why a checksum list was refused.
#[derive(Debug, Clone, PartialEq, Eq)]
pub enum ChecksumError {
    /// A line has a digest but no file name.
    MissingFilename,
}

/// Parse a release's `checksums.sha256` (`<sha256>  <file>` lines) into
/// file name -> digest.
pub fn parse_checksums(text: &str) -> (r: Result<KeyValues, ChecksumError>)
    ensures
        match r {
            Ok(kv) => checksum_pairs(lines(text@)) == Some(pairs_view(kv.pairs@)),
            Err(_) => checksum_pairs(lines(text@)) is None,
        },
{
    let t = chars_of(text);
    let ls = lines_exec(t.as_slice());
    let ghost all = ls.deep_view();
    let sep = chars_of("  ");
    proof {
        reveal_strlit("  ");
    }
    let star: Vec<char> = vec!['*'];
    assert(star@ =~= seq!['*']);
    let mut pairs: Vec<(String, String)> = Vec::new();
    let mut i: usize = 0;
    assert(all.take(0) =~= Seq::<Seq<char>>::empty());
    while i < ls.len()
        invariant
            i <= ls.len(),
            all == ls.deep_view(),
            all == lines(text@),
            sep@ == "  "@,
            sep@.len() == 2,
            star@ == seq!['*'],
            checksum_pairs(all.take(i as int)) == Some(pairs_view(pairs@)),
        decreases ls.len() - i,
    {
        assert(all.take(i + 1).drop_last() =~= all.take(i as int));
        assert(all[i as int] == ls@[i as int]@);
        let l = trim_slice(ls[i].as_slice());
        if l.len() > 0 && l[0] != '#' {
            match find_exec(l, sep.as_slice()) {
                None => {
                    proof {
                        lemma_checksum_pairs_none(all, i as int);
                    }
                    return Err(ChecksumError::MissingFilename);
                },
                Some(k) => {
                    let sha = vstd::slice::slice_subrange(l, 0, k);
                    let rest = vstd::slice::slice_subrange(l, k + 2, l.len());
                    let name = trim_slice(strip_slice(rest, false, star.as_slice()));
                    if is_64_bytes(sha) && name.len() > 0 {
                        let ghost before = pairs@;
                        pairs.push((string_of(name), string_of(sha)));
                        assert(pairs_view(pairs@) =~= pairs_view(before).push((name@, sha@)));
                    }
                },
            }
        }
        i = i + 1;
    }
    assert(all.take(ls.len() as int) =~= all);
    Ok(KeyValues { pairs })
}

proof fn lemma_checksum_pairs_none(all: Seq<Seq<char>>, i: int)
    requires
        0 <= i < all.len(),
        checksum_line(all[i]) is Err,
    ensures
        checksum_pairs(all) is None,
    decreases all.len(),
{
    if i < all.len() - 1 {
        lemma_checksum_pairs_none(all.drop_last(), i);
    }
}

// ---------------------------------------------------------------------------
// Prebuilt file names
// ---------------------------------------------------------------------------

/// A prebuilt file name without its extension: `.pkg.tar.zst`, `.deb` or
/// `.rpm`, else the text before the last `.` (none without a `.`).
pub open spec fn prebuilt_stem(f: Seq<char>) -> Option<Seq<char>> {
    if ends_with(f, ".pkg.tar.zst"@) {
        Some(f.take(f.len() - 12))
    } else if ends_with(f, ".deb"@) {
        Some(f.take(f.len() - 4))
    } else if ends_with(f, ".rpm"@) {
        Some(f.take(f.len() - 4))
    } else {
        let k = rfind_str(f, "."@);
        if k < 0 {
            None
        } else {
            Some(f.take(k))
        }
    }
}

/// The part of a prebuilt stem that holds `[{dist}_]{arch}`, and whether
/// it starts with a dist: after the last `+` (`+{dist}_{arch}`); else after
/// the last `-` (`-{build}_{arch}`); else nothing.
pub open spec fn prebuilt_tail(stem: Seq<char>) -> (Seq<char>, bool) {
    let p = rfind_str(stem, "+"@);
    if p >= 0 {
        (stem.skip(p + 1), true)
    } else {
        let d = rfind_str(stem, "-"@);
        if d >= 0 {
            (stem.skip(d + 1), false)
        } else {
            (seq![], false)
        }
    }
}

/// `{pkg}_{ver}-{build}+{dist}_{arch}.ext` -> (arch, dist): the dist runs
/// from the `+` to the first `_` after it, and the arch is everything after
/// that `_` (so `x86_64` stays whole); without a `+{dist}` part the dist is
/// empty and the arch follows the first `_` after `-{build}`. Where no `_`
/// follows that part, the arch is what follows the last `_` of the stem and
/// the dist is empty; a stem without `_` gives `None`.
pub open spec fn prebuilt_fields(f: Seq<char>) -> Option<(Seq<char>, Seq<char>)> {
    match prebuilt_stem(f) {
        None => None,
        Some(stem) => {
            let (tail, has_dist) = prebuilt_tail(stem);
            let u = find_str(tail, "_"@);
            if u >= 0 {
                Some(
                    (
                        tail.skip(u + 1),
                        if has_dist {
                            tail.take(u)
                        } else {
                            seq![]
                        },
                    ),
                )
            } else {
                let v = rfind_str(stem, "_"@);
                if v < 0 {
                    None
                } else {
                    Some((stem.skip(v + 1), seq![]))
                }
            }
        },
    }
}

/// Parse `{pkg}_{ver}-{build}+{dist}_{arch}.ext` -> (arch, dist).
pub fn parse_prebuilt_name(filename: &str) -> (r: Option<ParsedName>)
    ensures
        match r {
            Some(p) => prebuilt_fields(filename@) == Some((p.arch@, p.dist@)),
            None => prebuilt_fields(filename@) is None,
        },
{
    let f = chars_of(filename);
    proof {
        reveal_strlit(".pkg.tar.zst");
        reveal_strlit(".deb");
        reveal_strlit(".rpm");
        reveal_strlit(".");
        reveal_strlit("_");
        reveal_strlit("+");
        reveal_strlit("-");
    }
    let stem: &[char] = if ends_with_exec(f.as_slice(), chars_of(".pkg.tar.zst").as_slice()) {
        vstd::slice::slice_subrange(f.as_slice(), 0, f.len() - 12)
    } else if ends_with_exec(f.as_slice(), chars_of(".deb").as_slice()) {
        vstd::slice::slice_subrange(f.as_slice(), 0, f.len() - 4)
    } else if ends_with_exec(f.as_slice(), chars_of(".rpm").as_slice()) {
        vstd::slice::slice_subrange(f.as_slice(), 0, f.len() - 4)
    } else {
        match rfind_exec(f.as_slice(), chars_of(".").as_slice()) {
            Some(k) => vstd::slice::slice_subrange(f.as_slice(), 0, k),
            None => return None,
        }
    };
    assert(prebuilt_stem(filename@) == Some(stem@));
    let (tail, has_dist): (&[char], bool) = match rfind_exec(stem, chars_of("+").as_slice()) {
        Some(p) => (vstd::slice::slice_subrange(stem, p + 1, stem.len()), true),
        None => match rfind_exec(stem, chars_of("-").as_slice()) {
            Some(d) => (vstd::slice::slice_subrange(stem, d + 1, stem.len()), false),
            None => (vstd::slice::slice_subrange(stem, 0, 0), false),
        },
    };
    assert(prebuilt_tail(stem@) == (tail@, has_dist));
    let u = match find_exec(tail, chars_of("_").as_slice()) {
        Some(u) => u,
        None => {
            return match rfind_exec(stem, chars_of("_").as_slice()) {
                Some(v) => {
                    let arch = vstd::slice::slice_subrange(stem, v + 1, stem.len());
                    let none: &[char] = vstd::slice::slice_subrange(stem, 0, 0);
                    assert(arch@ =~= stem@.skip(v + 1));
                    assert(none@ =~= Seq::<char>::empty());
                    Some(ParsedName { arch: string_of(arch), dist: string_of(none) })
                },
                None => None,
            };
        },
    };
    let arch = vstd::slice::slice_subrange(tail, u + 1, tail.len());
    let dist: &[char] = if has_dist {
        vstd::slice::slice_subrange(tail, 0, u)
    } else {
        vstd::slice::slice_subrange(tail, 0, 0)
    };
    assert(arch@ =~= tail@.skip(u + 1));
    assert(dist@ =~= (if has_dist { tail@.take(u as int) } else { seq![] }));
    Some(ParsedName { arch: string_of(arch), dist: string_of(dist) })
}

/// Whether a prebuilt file fits the host: it has the host format's
/// extension, its name parses, its arch is the host's, and its dist is
/// empty or the host's.
pub open spec fn prebuilt_fits(f: Seq<char>, ext: Seq<char>, arch: Seq<char>, dist: Seq<char>) -> bool {
    ends_with(f, ext) && match prebuilt_fields(f) {
        Some((a, d)) => a == arch && (d.len() == 0 || d == dist),
        None => false,
    }
}

/// The first prebuilt (in file name order) of one release that fits the
/// host, with its expected digest.
pub fn select_prebuilt(checksums: &KeyValues, ext: &str, arch: &str, dist: &str) -> (r: Option<
    (String, String),
>)
    ensures
        ({
            let m = checksums@;
            match r {
                Some((f, sha)) => m.contains_key(f@) && m[f@] == sha@ && prebuilt_fits(
                    f@,
                    ext@,
                    arch@,
                    dist@,
                ) && forall|g: Seq<char>|
                    m.contains_key(g) && crate::sorted::seq_lt(g, f@) ==> !prebuilt_fits(
                        g,
                        ext@,
                        arch@,
                        dist@,
                    ),
                None => forall|g: Seq<char>|
                    m.contains_key(g) ==> !prebuilt_fits(g, ext@, arch@, dist@),
            }
        }),
{
    let mut keys: Vec<String> = Vec::new();
    let mut j: usize = 0;
    let ghost ps = pairs_view(checksums.pairs@);
    while j < checksums.pairs.len()
        invariant
            j <= checksums.pairs@.len(),
            ps == pairs_view(checksums.pairs@),
            keys.deep_view() == ps.take(j as int).map_values(
                |p: (Seq<char>, Seq<char>)| p.0,
            ),
        decreases checksums.pairs@.len() - j,
    {
        let ghost before = keys.deep_view();
        keys.push(checksums.pairs[j].0.clone());
        assert(keys.deep_view() =~= before.push(ps[j as int].0));
        assert(ps.take(j + 1) =~= ps.take(j as int).push(ps[j as int]));
        assert(ps.take(j + 1).map_values(|p: (Seq<char>, Seq<char>)| p.0) =~= ps.take(
            j as int,
        ).map_values(|p: (Seq<char>, Seq<char>)| p.0).push(ps[j as int].0));
        j = j + 1;
    }
    assert(ps.take(ps.len() as int) =~= ps);
    proof {
        lemma_kv_map_keys(ps);
    }
    let sorted = sorted_unique(&keys);
    let ghost sk = sorted.deep_view();
    let e = chars_of(ext);
    let mut i: usize = 0;
    while i < sorted.len()
        invariant
            i <= sorted@.len(),
            sk == sorted.deep_view(),
            strictly_sorted(sk),
            sk.to_set() == checksums@.dom(),
            e@ == ext@,
            forall|q: int| 0 <= q < i ==> !prebuilt_fits(#[trigger] sk[q], ext@, arch@, dist@),
        decreases sorted@.len() - i,
    {
        let f = &sorted[i];
        assert(sk[i as int] == f@);
        if ends_with_exec(chars_of(f.as_str()).as_slice(), e.as_slice()) {
            match parse_prebuilt_name(f.as_str()) {
                Some(p) => {
                    if p.arch.as_str().unicode_len() == arch.unicode_len() && seq_eq(
                        chars_of(p.arch.as_str()).as_slice(),
                        chars_of(arch).as_slice(),
                    ) && (p.dist.as_str().unicode_len() == 0 || seq_eq(
                        chars_of(p.dist.as_str()).as_slice(),
                        chars_of(dist).as_slice(),
                    )) {
                        assert(sk.to_set().contains(f@));
                        let sha = checksums.get(f.as_str());
                        match sha {
                            Some(s) => {
                                proof {
                                    assert forall|g: Seq<char>|
                                        checksums@.contains_key(g) && crate::sorted::seq_lt(
                                            g,
                                            f@,
                                        ) implies !prebuilt_fits(g, ext@, arch@, dist@) by {
                                        assert(sk.to_set().contains(g));
                                        let q = choose|q: int| 0 <= q < sk.len() && sk[q] == g;
                                        if q >= i {
                                            if q > i {
                                                assert(crate::sorted::seq_lt(sk[i as int], sk[q]));
                                                crate::sorted::lemma_seq_lt_transitive(g, f@, g);
                                            }
                                            crate::sorted::lemma_seq_lt_irreflexive(g);
                                        }
                                    }
                                }
                                return Some((f.clone(), s.clone()));
                            },
                            None => {},
                        }
                    }
                },
                None => {},
            }
        }
        i = i + 1;
    }
    proof {
        assert forall|g: Seq<char>| checksums@.contains_key(g) implies !prebuilt_fits(
            g,
            ext@,
            arch@,
            dist@,
        ) by {
            assert(sk.to_set().contains(g));
            let q = choose|q: int| 0 <= q < sk.len() && sk[q] == g;
        }
    }
    None
}

/// Whether a release's checksum list (if it could be read) names a
/// prebuilt that fits the host.
pub open spec fn release_has_fit(c: Option<KeyValues>, ext: Seq<char>, arch: Seq<char>, dist: Seq<char>) -> bool {
    match c {
        Some(kv) => exists|g: Seq<char>| kv@.contains_key(g) && #[trigger] prebuilt_fits(g, ext, arch, dist),
        None => false,
    }
}

/// What an install from the community index does before (or instead of)
/// building from the recipe.
#[derive(Debug, Clone, PartialEq, Eq)]
pub enum PrebuiltPlan {
    /// Install the prebuilt `filename` of the release at position `tag`,
    /// checked against `sha`.
    Install { tag: usize, filename: String, sha: String },
    /// A release was asked for by tag and has no fitting prebuilt.
    NoPrebuiltForTag,
    /// No release has a fitting prebuilt: build from the recipe.
    BuildFromRecipe,
}

/// Try the releases in order (the one asked for by tag, or every release
/// with prebuilts) and take the first fitting prebuilt of the first release
/// that has one; each entry is that release's checksum list restricted to
/// the files present, `None` where it could not be read. With none: an
/// error when a tag was asked for, else a build from the recipe.
pub fn plan_prebuilt(
    releases: &Vec<Option<KeyValues>>,
    ext: &str,
    arch: &str,
    dist: &str,
    tag_given: bool,
) -> (r: PrebuiltPlan)
    ensures
        match r {
            PrebuiltPlan::Install { tag, filename, sha } => {
                &&& tag < releases@.len()
                &&& releases@[tag as int] matches Some(kv) && kv@.contains_key(filename@)
                    && kv@[filename@] == sha@ && prebuilt_fits(filename@, ext@, arch@, dist@)
                    && forall|g: Seq<char>|
                    kv@.contains_key(g) && crate::sorted::seq_lt(g, filename@) ==> !prebuilt_fits(
                        g,
                        ext@,
                        arch@,
                        dist@,
                    )
                &&& forall|j: int|
                    0 <= j < tag ==> !release_has_fit(#[trigger] releases@[j], ext@, arch@, dist@)
            },
            PrebuiltPlan::NoPrebuiltForTag => tag_given && forall|j: int|
                0 <= j < releases@.len() ==> !release_has_fit(
                    #[trigger] releases@[j],
                    ext@,
                    arch@,
                    dist@,
                ),
            PrebuiltPlan::BuildFromRecipe => !tag_given && forall|j: int|
                0 <= j < releases@.len() ==> !release_has_fit(
                    #[trigger] releases@[j],
                    ext@,
                    arch@,
                    dist@,
                ),
        },
{
    let mut i: usize = 0;
    while i < releases.len()
        invariant
            i <= releases@.len(),
            forall|j: int| 0 <= j < i ==> !release_has_fit(#[trigger] releases@[j], ext@, arch@, dist@),
        decreases releases@.len() - i,
    {
        match &releases[i] {
            Some(kv) => match select_prebuilt(kv, ext, arch, dist) {
                Some((filename, sha)) => {
                    return PrebuiltPlan::Install { tag: i, filename, sha };
                },
                None => {},
            },
            None => {},
        }
        i = i + 1;
    }
    if tag_given {
        PrebuiltPlan::NoPrebuiltForTag
    } else {
        PrebuiltPlan::BuildFromRecipe
    }
}

// ---------------------------------------------------------------------------
// Search
// ---------------------------------------------------------------------------

/// The text a search pattern is tried on for a recipe: its name, its
/// description and its README, one per line.
pub open spec fn recipe_text(name: Seq<char>, e: RecipeEntry) -> Seq<char> {
    name + "\n"@ + yaml_description(lines(e.yaml@)) + "\n"@ + (match e.readme {
        Some(r) => r@,
        None => Seq::empty(),
    })
}

/// The positions of the recipes a pattern (if any) finds, in order.
pub open spec fn recipe_matches_of(recipes: Seq<(String, RecipeEntry)>, pat: Option<Seq<char>>) -> Seq<usize>
    decreases recipes.len(),
{
    if recipes.len() == 0 {
        Seq::empty()
    } else {
        let r = recipe_matches_of(recipes.drop_last(), pat);
        let found = match pat {
            None => true,
            Some(p) => regex_is_match_of(p, recipe_text(recipes.last().0@, recipes.last().1)),
        };
        if found {
            r.push((recipes.len() - 1) as usize)
        } else {
            r
        }
    }
}

impl LxCommunitySource {
    /// Which recipes (name and entry, in name order) a search finds: those
    /// whose name, description or README the pattern matches,
    /// case-insensitively; all of them without a pattern. An invalid
    /// pattern is an error.
    pub fn search_matches(recipes: &Vec<(String, RecipeEntry)>, pattern: Option<&str>) -> (r: Result<Vec<usize>, SearchError>)
        ensures
            match pattern {
                None => r matches Ok(ix) && ix@ == recipe_matches_of(recipes@, None),
                Some(p) => match r {
                    Ok(ix) => regex_compiles_of(search_pattern(p@)) && ix@ == recipe_matches_of(recipes@, Some(search_pattern(p@))),
                    Err(SearchError::BadPattern(q)) => !regex_compiles_of(search_pattern(p@)) && q@ == p@,
                },
            },
    {
        let pat: Option<String> = match pattern {
            Some(p) => {
                let mut f = String::from_str("(?i)");
                f.append(p);
                if !regex_compiles(f.as_str()) {
                    return Err(SearchError::BadPattern(p.to_string()));
                }
                Some(f)
            },
            None => None,
        };
        let ghost pv = crate::text::opt_view(pat);
        let mut out: Vec<usize> = Vec::new();
        let mut i: usize = 0;
        while i < recipes.len()
            invariant
                i <= recipes@.len(),
                pv == crate::text::opt_view(pat),
                pat matches Some(f) ==> regex_compiles_of(f@),
                out@ == recipe_matches_of(recipes@.take(i as int), pv),
            decreases recipes@.len() - i,
        {
            assert(recipes@.take(i + 1).drop_last() =~= recipes@.take(i as int));
            assert(recipes@.take(i + 1).last() == recipes@[i as int]);
            let found = match &pat {
                None => true,
                Some(f) => {
                    let (name, entry) = (&recipes[i].0, &recipes[i].1);
                    let mut text = name.clone();
                    text.append("\n");
                    text.append(Self::desc_from_yaml(entry.yaml.as_str()).as_str());
                    text.append("\n");
                    match &entry.readme {
                        Some(r) => text.append(r.as_str()),
                        None => {},
                    }
                    assert(text@ == recipe_text(recipes@[i as int].0@, recipes@[i as int].1));
                    regex_is_match(f.as_str(), text.as_str())
                },
            };
            if found {
                out.push(i);
            }
            i = i + 1;
        }
        assert(recipes@.take(recipes@.len() as int) =~= recipes@);
        Ok(out)
    }

    /// The hit a found recipe gives: its description, whether the host has
    /// it, and the release tags with prebuilt binaries as the versions
    /// offered.
    pub fn recipe_hit(&self, name: &str, entry: &RecipeEntry, tags: Vec<String>, installed: bool) -> (r: IndexHit)
        ensures
            r.name@ == name@,
            r.description@ == yaml_description(lines(entry.yaml@)),
            r.source@ == self.name@,
            r.installed == installed,
            r.available@ == tags@,
            r.newest is None,
            r.repos == 0 && r.outdated == 0 && r.vulnerable == 0,
            r.host_version is None,
            r.host_status is None,
    {
        IndexHit {
            name: String::from_str(name),
            description: Self::desc_from_yaml(entry.yaml.as_str()),
            source: self.name.clone(),
            installed,
            available: tags,
            newest: None,
            repos: 0,
            outdated: 0,
            vulnerable: 0,
            host_version: None,
            host_status: None,
        }
    }
}

} // verus!
