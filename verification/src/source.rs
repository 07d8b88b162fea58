//! Source packages generated next to the binary ones: Debian `.dsc`
//! (3.0 quilt), RPM `.src.rpm` spec files and Arch `PKGBUILD`s. This module
//! reads the built packages' file names (which distributions, which
//! reference package), names the generated files and renders their text.
//! Reading directories, extracting and archiving stay outside.
use vstd::prelude::*;

use crate::digests::{hex_lower, md5_digest, md5_hex, sha1_digest, sha1_hex, sha256_digest, sha256_hex};
use crate::text::{
    after_last, after_last_exec, chars_of, contains_exec, contains_str, ends_with,
    ends_with_exec, first_where, lemma_first_where, rsplit_once, rsplit_once_exec, seq_eq,
    starts_with, starts_with_exec, string_of, strip_prefix_all, strip_prefix_all_exec,
    strip_suffix_all, strip_suffix_all_exec,
};

verus! {

// ---------------------------------------------------------------------------
// Debian: which distributions, which reference .deb
// ---------------------------------------------------------------------------

/// The distribution a built `.deb` was made for, read from
/// `<pkg>_<version>-<build>+<dist>_<arch>.deb`: `None` for other files and
/// for names without a distribution.
pub open spec fn deb_dist_of(name: Seq<char>, pkg: Seq<char>) -> Option<Seq<char>> {
    let prefix = pkg + "_"@;
    if !starts_with(name, prefix) || !ends_with(name, ".deb"@) {
        None
    } else {
        let rest = strip_prefix_all(strip_suffix_all(name, ".deb"@), prefix);
        let rest = match rsplit_once(rest, "_"@) {
            Some((r, _)) => r,
            None => rest,
        };
        let dist = after_last(rest, "+"@);
        if dist.len() == 0 {
            None
        } else {
            Some(dist)
        }
    }
}

/// `acc` with `x` appended unless it already holds it.
pub open spec fn add_new(acc: Seq<Seq<char>>, x: Option<Seq<char>>) -> Seq<Seq<char>> {
    match x {
        Some(d) => if acc.contains(d) {
            acc
        } else {
            acc.push(d)
        },
        None => acc,
    }
}

/// The distributions of the built `.deb`s among `names`, each once, in the
/// order they first appear.
pub open spec fn deb_dists(names: Seq<Seq<char>>, pkg: Seq<char>) -> Seq<Seq<char>>
    decreases names.len(),
{
    if names.len() == 0 {
        Seq::empty()
    } else {
        add_new(deb_dists(names.drop_last(), pkg), deb_dist_of(names.last(), pkg))
    }
}

/// `pkg` followed by `sep`.
fn with_sep(pkg: &str, sep: &str) -> (r: Vec<char>)
    ensures
        r@ == pkg@ + sep@,
{
    let mut v = chars_of(pkg);
    crate::text::append_chars(&mut v, chars_of(sep).as_slice());
    v
}

/// The distribution of one built `.deb`.
pub fn deb_dist(name: &str, pkg: &str) -> (r: Option<String>)
    ensures
        match r {
            Some(d) => deb_dist_of(name@, pkg@) == Some(d@),
            None => deb_dist_of(name@, pkg@) is None,
        },
{
    let n = chars_of(name);
    let prefix = with_sep(pkg, "_");
    let ext = chars_of(".deb");
    if !starts_with_exec(n.as_slice(), prefix.as_slice()) || !ends_with_exec(
        n.as_slice(),
        ext.as_slice(),
    ) {
        return None;
    }
    let stem = strip_suffix_all_exec(n.as_slice(), ext.as_slice());
    let rest = strip_prefix_all_exec(stem, prefix.as_slice());
    let underscore = chars_of("_");
    let rest = match rsplit_once_exec(rest, underscore.as_slice()) {
        Some((r, _)) => r,
        None => rest,
    };
    let plus = chars_of("+");
    let dist = after_last_exec(rest, plus.as_slice());
    if dist.len() == 0 {
        None
    } else {
        Some(string_of(dist))
    }
}

/// Appends `x` to `acc` unless `acc` already holds it.
fn push_new(acc: &mut Vec<String>, x: Option<String>)
    ensures
        final(acc).deep_view() == add_new(old(acc).deep_view(), crate::text::opt_view(x)),
{
    match x {
        Some(d) => {
            if !crate::sorted::holds(acc, chars_of(d.as_str()).as_slice()) {
                let ghost before = acc.deep_view();
                let ghost dv = d@;
                acc.push(d);
                assert(acc.deep_view() =~= before.push(dv));
            }
        },
        None => {},
    }
}

/// The distributions of the built `.deb`s of `pkg` among the file names, each
/// once, in the order they first appear.
pub fn unique_dists(names: &Vec<String>, pkg: &str) -> (r: Vec<String>)
    ensures
        r.deep_view() == deb_dists(names.deep_view(), pkg@),
{
    let ghost all = names.deep_view();
    let mut dists: Vec<String> = Vec::new();
    let mut i: usize = 0;
    assert(all.take(0) =~= Seq::<Seq<char>>::empty());
    while i < names.len()
        invariant
            i <= names.len(),
            all == names.deep_view(),
            dists.deep_view() == deb_dists(all.take(i as int), pkg@),
        decreases names.len() - i,
    {
        assert(all.take(i + 1).drop_last() =~= all.take(i as int));
        assert(all.take(i + 1).last() == names@[i as int]@);
        let d = deb_dist(names[i].as_str(), pkg);
        push_new(&mut dists, d);
        i = i + 1;
    }
    assert(all.take(names.len() as int) =~= all);
    dists
}

/// A built `.deb` of `pkg` for `dist`.
pub open spec fn is_dist_deb(name: Seq<char>, pkg: Seq<char>, dist: Seq<char>) -> bool {
    starts_with(name, pkg + "_"@) && ends_with(name, ".deb"@) && contains_str(
        name,
        "+"@ + dist + "_"@,
    )
}

/// A built amd64 `.deb` of `pkg` for `dist`.
pub open spec fn is_dist_amd64_deb(name: Seq<char>, pkg: Seq<char>, dist: Seq<char>) -> bool {
    is_dist_deb(name, pkg, dist) && ends_with(name, "+"@ + dist + "_amd64.deb"@)
}

/// The test for a built `.deb` of `pkg` for `dist`.
pub open spec fn dist_deb_test(pkg: Seq<char>, dist: Seq<char>) -> spec_fn(Seq<char>) -> bool {
    |n: Seq<char>| is_dist_deb(n, pkg, dist)
}

/// The test for a built amd64 `.deb` of `pkg` for `dist`.
pub open spec fn dist_amd64_deb_test(pkg: Seq<char>, dist: Seq<char>) -> spec_fn(Seq<char>) -> bool {
    |n: Seq<char>| is_dist_amd64_deb(n, pkg, dist)
}

/// The reference `.deb` for `dist`: the first amd64 one, else the first one.
pub open spec fn ref_deb_of(names: Seq<Seq<char>>, pkg: Seq<char>, dist: Seq<char>) -> Option<
    Seq<char>,
> {
    let amd = first_where(names, dist_amd64_deb_test(pkg, dist));
    let any = first_where(names, dist_deb_test(pkg, dist));
    if amd >= 0 {
        Some(names[amd])
    } else if any >= 0 {
        Some(names[any])
    } else {
        None
    }
}

/// Picks the `.deb` a source package for `dist` is made from: amd64 when
/// there is one, else the first built for `dist`.
pub fn find_ref_deb(names: &Vec<String>, pkg: &str, dist: &str) -> (r: Option<String>)
    ensures
        match r {
            Some(n) => ref_deb_of(names.deep_view(), pkg@, dist@) == Some(n@),
            None => ref_deb_of(names.deep_view(), pkg@, dist@) is None,
        },
{
    let ghost all = names.deep_view();
    let ghost is_amd = dist_amd64_deb_test(pkg@, dist@);
    let ghost is_any = dist_deb_test(pkg@, dist@);
    proof {
        lemma_first_where(all, is_amd);
        lemma_first_where(all, is_any);
    }
    let prefix = with_sep(pkg, "_");
    let ext = chars_of(".deb");
    let mut marker = chars_of("+");
    crate::text::append_chars(&mut marker, chars_of(dist).as_slice());
    let mut amd = marker.clone();
    crate::text::append_chars(&mut marker, chars_of("_").as_slice());
    crate::text::append_chars(&mut amd, chars_of("_amd64.deb").as_slice());
    let mut any: Option<String> = None;
    let mut i: usize = 0;
    while i < names.len()
        invariant
            i <= names.len(),
            all == names.deep_view(),
            prefix@ == pkg@ + "_"@,
            ext@ == ".deb"@,
            marker@ == "+"@ + dist@ + "_"@,
            amd@ == "+"@ + dist@ + "_amd64.deb"@,
            is_amd == dist_amd64_deb_test(pkg@, dist@),
            is_any == dist_deb_test(pkg@, dist@),
            forall|j: int| 0 <= j < i ==> !is_amd(#[trigger] all[j]),
            -1 <= first_where(all, is_amd) < all.len(),
            first_where(all, is_amd) >= 0 ==> is_amd(all[first_where(all, is_amd)]),
            -1 <= first_where(all, is_any) < all.len(),
            first_where(all, is_any) >= 0 ==> is_any(all[first_where(all, is_any)]),
            forall|j: int|
                0 <= j < all.len() && (first_where(all, is_any) < 0 || j < first_where(
                    all,
                    is_any,
                )) ==> !is_any(#[trigger] all[j]),
            forall|j: int|
                0 <= j < all.len() && (first_where(all, is_amd) < 0 || j < first_where(
                    all,
                    is_amd,
                )) ==> !is_amd(#[trigger] all[j]),
            match any {
                Some(a) => 0 <= first_where(all, is_any) < i && a@ == all[first_where(all, is_any)],
                None => first_where(all, is_any) < 0 || first_where(all, is_any) >= i,
            },
        decreases names.len() - i,
    {
        assert(all[i as int] == names@[i as int]@);
        let n = chars_of(names[i].as_str());
        assert(n@ == all[i as int]);
        if starts_with_exec(n.as_slice(), prefix.as_slice()) && ends_with_exec(
            n.as_slice(),
            ext.as_slice(),
        ) && contains_exec(n.as_slice(), marker.as_slice()) {
            assert(is_any(all[i as int]));
            if ends_with_exec(n.as_slice(), amd.as_slice()) {
                assert(is_amd(all[i as int]));
                return Some(names[i].clone());
            }
            if any.is_none() {
                any = Some(names[i].clone());
            }
        } else {
            assert(!is_any(all[i as int]));
        }
        assert(!is_amd(all[i as int]));
        i = i + 1;
    }
    any
}

// ---------------------------------------------------------------------------
// RPM: which distributions, which reference .rpm
// ---------------------------------------------------------------------------

/// The distribution of a built binary `.rpm` of `pkg`, read from
/// `<pkg>-<version>-<build>.<dist>.<arch>.rpm`.
pub open spec fn rpm_dist_of(name: Seq<char>, pkg: Seq<char>) -> Option<Seq<char>> {
    if !starts_with(name, pkg + "-"@) || !ends_with(name, ".rpm"@) || ends_with(
        name,
        ".src.rpm"@,
    ) {
        None
    } else {
        match rsplit_once(strip_suffix_all(name, ".rpm"@), "."@) {
            Some((rest, _)) => match rsplit_once(rest, "."@) {
                Some((_, dist)) => Some(dist),
                None => None,
            },
            None => None,
        }
    }
}

/// The distributions of the built `.rpm`s among `names`, each once, in the
/// order they first appear.
pub open spec fn rpm_dists(names: Seq<Seq<char>>, pkg: Seq<char>) -> Seq<Seq<char>>
    decreases names.len(),
{
    if names.len() == 0 {
        Seq::empty()
    } else {
        add_new(rpm_dists(names.drop_last(), pkg), rpm_dist_of(names.last(), pkg))
    }
}

/// The distribution of one built `.rpm`.
pub fn rpm_dist(name: &str, pkg: &str) -> (r: Option<String>)
    ensures
        match r {
            Some(d) => rpm_dist_of(name@, pkg@) == Some(d@),
            None => rpm_dist_of(name@, pkg@) is None,
        },
{
    let n = chars_of(name);
    let prefix = with_sep(pkg, "-");
    let ext = chars_of(".rpm");
    let src = chars_of(".src.rpm");
    if !starts_with_exec(n.as_slice(), prefix.as_slice()) || !ends_with_exec(
        n.as_slice(),
        ext.as_slice(),
    ) || ends_with_exec(n.as_slice(), src.as_slice()) {
        return None;
    }
    let stem = strip_suffix_all_exec(n.as_slice(), ext.as_slice());
    let dot = chars_of(".");
    match rsplit_once_exec(stem, dot.as_slice()) {
        Some((rest, _)) => match rsplit_once_exec(rest, dot.as_slice()) {
            Some((_, dist)) => Some(string_of(dist)),
            None => None,
        },
        None => None,
    }
}

/// The distributions of the built `.rpm`s of `pkg` among the file names,
/// each once, in the order they first appear.
pub fn unique_dists_rpm(names: &Vec<String>, pkg: &str) -> (r: Vec<String>)
    ensures
        r.deep_view() == rpm_dists(names.deep_view(), pkg@),
{
    let ghost all = names.deep_view();
    let mut dists: Vec<String> = Vec::new();
    let mut i: usize = 0;
    assert(all.take(0) =~= Seq::<Seq<char>>::empty());
    while i < names.len()
        invariant
            i <= names.len(),
            all == names.deep_view(),
            dists.deep_view() == rpm_dists(all.take(i as int), pkg@),
        decreases names.len() - i,
    {
        assert(all.take(i + 1).drop_last() =~= all.take(i as int));
        assert(all.take(i + 1).last() == names@[i as int]@);
        let d = rpm_dist(names[i].as_str(), pkg);
        push_new(&mut dists, d);
        i = i + 1;
    }
    assert(all.take(names.len() as int) =~= all);
    dists
}

/// What a built package's file name says of it: its release and its
/// architecture, when it is one of the packages looked for.
pub type Candidate = Option<(Seq<char>, Seq<char>)>;

/// The first name whose candidate is built for `x86_64`, with its release.
pub open spec fn first_x86(names: Seq<Seq<char>>, cand: spec_fn(Seq<char>) -> Candidate) -> Option<
    (Seq<char>, Seq<char>),
>
    decreases names.len(),
{
    if names.len() == 0 {
        None
    } else {
        match cand(names[0]) {
            Some((rel, arch)) if arch == "x86_64"@ => Some((names[0], rel)),
            _ => first_x86(names.drop_first(), cand),
        }
    }
}

/// The first name that is a candidate, with its release.
pub open spec fn first_candidate(
    names: Seq<Seq<char>>,
    cand: spec_fn(Seq<char>) -> Candidate,
) -> Option<(Seq<char>, Seq<char>)>
    decreases names.len(),
{
    if names.len() == 0 {
        None
    } else {
        match cand(names[0]) {
            Some((rel, _)) => Some((names[0], rel)),
            None => first_candidate(names.drop_first(), cand),
        }
    }
}

/// The reference package: the first built for `x86_64`, else the first
/// candidate; with its release.
pub open spec fn preferred(names: Seq<Seq<char>>, cand: spec_fn(Seq<char>) -> Candidate) -> Option<
    (Seq<char>, Seq<char>),
> {
    match first_x86(names, cand) {
        Some(p) => Some(p),
        None => first_candidate(names, cand),
    }
}

/// The views of an optional pair of strings.
pub open spec fn pair_view(p: Option<(String, String)>) -> Option<(Seq<char>, Seq<char>)> {
    match p {
        Some((a, b)) => Some((a@, b@)),
        None => None,
    }
}

/// What a built `.rpm`'s name says: with `prefix` = `<pkg>-<version>-`, a
/// name `<prefix><release>.<arch>.rpm` (not `.src.rpm`) whose release ends
/// in `.<dist>`.
pub open spec fn rpm_candidate(name: Seq<char>, prefix: Seq<char>, dist: Seq<char>) -> Candidate {
    if !starts_with(name, prefix) || !ends_with(name, ".rpm"@) || ends_with(name, ".src.rpm"@) {
        None
    } else {
        let stem = strip_suffix_all(name, ".rpm"@);
        if !starts_with(stem, prefix) {
            None
        } else {
            match rsplit_once(stem.skip(prefix.len() as int), "."@) {
                Some((release, arch)) => if ends_with(release, "."@ + dist) {
                    Some((release, arch))
                } else {
                    None
                },
                None => None,
            }
        }
    }
}

/// The candidate test for the `.rpm`s of `pkg` at `version` for `dist`.
pub open spec fn rpm_candidate_fn(pkg: Seq<char>, version: Seq<char>, dist: Seq<char>) -> spec_fn(
    Seq<char>,
) -> Candidate {
    |n: Seq<char>| rpm_candidate(n, pkg + "-"@ + version + "-"@, dist)
}

fn rpm_candidate_exec(name: &str, prefix: &[char], dist_suffix: &[char]) -> (r: Option<
    (String, String),
>)
    requires
        dist_suffix@.len() >= 1,
        dist_suffix@[0] == '.',
    ensures
        pair_view(r) == rpm_candidate(name@, prefix@, dist_suffix@.skip(1)),
{
    let n = chars_of(name);
    let ext = chars_of(".rpm");
    let src = chars_of(".src.rpm");
    assert("."@ + dist_suffix@.skip(1) =~= dist_suffix@) by {
        reveal_strlit(".");
    }
    if !starts_with_exec(n.as_slice(), prefix) || !ends_with_exec(n.as_slice(), ext.as_slice())
        || ends_with_exec(n.as_slice(), src.as_slice()) {
        return None;
    }
    let stem = strip_suffix_all_exec(n.as_slice(), ext.as_slice());
    if !starts_with_exec(stem, prefix) {
        return None;
    }
    let rest = vstd::slice::slice_subrange(stem, prefix.len(), stem.len());
    assert(rest@ =~= stem@.skip(prefix@.len() as int));
    let dot = chars_of(".");
    match rsplit_once_exec(rest, dot.as_slice()) {
        Some((release, arch)) => {
            if ends_with_exec(release, dist_suffix) {
                Some((string_of(release), string_of(arch)))
            } else {
                None
            }
        },
        None => None,
    }
}

/// Picks the `.rpm` a source RPM for `dist` is made from: the `x86_64` one
/// when there is one, else the first built for `dist`; with its release
/// (`<build>.<dist>`) read back from the name.
pub fn find_ref_rpm(names: &Vec<String>, pkg: &str, version: &str, dist: &str) -> (r: Option<
    (String, String),
>)
    ensures
        pair_view(r) == preferred(names.deep_view(), rpm_candidate_fn(pkg@, version@, dist@)),
{
    let ghost all = names.deep_view();
    let ghost cand = rpm_candidate_fn(pkg@, version@, dist@);
    let mut prefix = with_sep(pkg, "-");
    crate::text::append_chars(&mut prefix, with_sep(version, "-").as_slice());
    let dist_suffix = with_sep(".", dist);
    proof {
        reveal_strlit(".");
        assert(dist_suffix@.skip(1) =~= dist@);
        assert(prefix@ =~= pkg@ + "-"@ + version@ + "-"@);
    }
    let x86 = chars_of("x86_64");
    let mut any: Option<(String, String)> = None;
    let mut i: usize = 0;
    assert(all.skip(0) =~= all);
    while i < names.len()
        invariant
            i <= names.len(),
            all == names.deep_view(),
            cand == rpm_candidate_fn(pkg@, version@, dist@),
            prefix@ == pkg@ + "-"@ + version@ + "-"@,
            dist_suffix@.len() >= 1,
            dist_suffix@[0] == '.',
            dist_suffix@.skip(1) == dist@,
            x86@ == "x86_64"@,
            first_x86(all, cand) == first_x86(all.skip(i as int), cand),
            any is None ==> first_candidate(all, cand) == first_candidate(all.skip(i as int), cand),
            any is Some ==> first_candidate(all, cand) == pair_view(any),
        decreases names.len() - i,
    {
        let ghost rest = all.skip(i as int);
        assert(rest[0] == names@[i as int]@);
        assert(rest.drop_first() =~= all.skip(i + 1));
        let c = rpm_candidate_exec(names[i].as_str(), prefix.as_slice(), dist_suffix.as_slice());
        assert(pair_view(c) == cand(rest[0]));
        match c {
            Some((release, arch)) => {
                if seq_eq(chars_of(arch.as_str()).as_slice(), x86.as_slice()) {
                    return Some((names[i].clone(), release));
                }
                if any.is_none() {
                    any = Some((names[i].clone(), release));
                }
            },
            None => {},
        }
        i = i + 1;
    }
    any
}

/// What a built Arch package's name says: with `prefix` = `<pkg>-` and
/// `version_prefix` = `[<epoch>:]<version>-`, a name
/// `<prefix><version_prefix><release>-<arch>.pkg.tar.zst`.
pub open spec fn arch_candidate(name: Seq<char>, prefix: Seq<char>, version_prefix: Seq<char>) -> Candidate {
    if !starts_with(name, prefix) || !ends_with(name, ".pkg.tar.zst"@) {
        None
    } else {
        let stem = strip_suffix_all(name, ".pkg.tar.zst"@);
        if !starts_with(stem, prefix) {
            None
        } else {
            let rest = stem.skip(prefix.len() as int);
            if !starts_with(rest, version_prefix) {
                None
            } else {
                rsplit_once(rest.skip(version_prefix.len() as int), "-"@)
            }
        }
    }
}

/// The `[<epoch>:]<version>-` part of an Arch package name.
pub open spec fn arch_version_prefix(version: Seq<char>, epoch: Seq<char>) -> Seq<char> {
    if crate::text::trim(epoch).len() == 0 {
        version + "-"@
    } else {
        crate::text::trim(epoch) + ":"@ + version + "-"@
    }
}

/// The candidate test for the Arch packages of `pkg` at `version`.
pub open spec fn arch_candidate_fn(pkg: Seq<char>, version: Seq<char>, epoch: Seq<char>) -> spec_fn(
    Seq<char>,
) -> Candidate {
    |n: Seq<char>| arch_candidate(n, pkg + "-"@, arch_version_prefix(version, epoch))
}

fn arch_candidate_exec(name: &str, prefix: &[char], version_prefix: &[char]) -> (r: Option<
    (String, String),
>)
    ensures
        pair_view(r) == arch_candidate(name@, prefix@, version_prefix@),
{
    let n = chars_of(name);
    let ext = chars_of(".pkg.tar.zst");
    if !starts_with_exec(n.as_slice(), prefix) || !ends_with_exec(n.as_slice(), ext.as_slice()) {
        return None;
    }
    let stem = strip_suffix_all_exec(n.as_slice(), ext.as_slice());
    if !starts_with_exec(stem, prefix) {
        return None;
    }
    let rest = vstd::slice::slice_subrange(stem, prefix.len(), stem.len());
    assert(rest@ =~= stem@.skip(prefix@.len() as int));
    if !starts_with_exec(rest, version_prefix) {
        return None;
    }
    let tail = vstd::slice::slice_subrange(rest, version_prefix.len(), rest.len());
    assert(tail@ =~= rest@.skip(version_prefix@.len() as int));
    let dash = chars_of("-");
    match rsplit_once_exec(tail, dash.as_slice()) {
        Some((release, arch)) => Some((string_of(release), string_of(arch))),
        None => None,
    }
}

/// Picks the Arch package a `PKGBUILD` is made from: the `x86_64` one when
/// there is one, else the first of `pkg` at `version` (with `epoch`); with
/// its release read back from the name.
pub fn find_ref_arch(names: &Vec<String>, pkg: &str, version: &str, epoch: &str) -> (r: Option<
    (String, String),
>)
    ensures
        pair_view(r) == preferred(names.deep_view(), arch_candidate_fn(pkg@, version@, epoch@)),
{
    let ghost all = names.deep_view();
    let ghost cand = arch_candidate_fn(pkg@, version@, epoch@);
    let prefix = with_sep(pkg, "-");
    let e = chars_of(epoch);
    let et = crate::text::trim_slice(e.as_slice());
    let mut version_prefix: Vec<char> = Vec::new();
    if et.len() > 0 {
        crate::text::append_chars(&mut version_prefix, et);
        version_prefix.push(':');
    }
    crate::text::append_chars(&mut version_prefix, with_sep(version, "-").as_slice());
    proof {
        reveal_strlit(":");
        if et@.len() > 0 {
            assert(version_prefix@ =~= arch_version_prefix(version@, epoch@));
        } else {
            assert(version_prefix@ =~= arch_version_prefix(version@, epoch@));
        }
    }
    let x86 = chars_of("x86_64");
    let mut any: Option<(String, String)> = None;
    let mut i: usize = 0;
    assert(all.skip(0) =~= all);
    while i < names.len()
        invariant
            i <= names.len(),
            all == names.deep_view(),
            cand == arch_candidate_fn(pkg@, version@, epoch@),
            prefix@ == pkg@ + "-"@,
            version_prefix@ == arch_version_prefix(version@, epoch@),
            x86@ == "x86_64"@,
            first_x86(all, cand) == first_x86(all.skip(i as int), cand),
            any is None ==> first_candidate(all, cand) == first_candidate(all.skip(i as int), cand),
            any is Some ==> first_candidate(all, cand) == pair_view(any),
        decreases names.len() - i,
    {
        let ghost rest = all.skip(i as int);
        assert(rest[0] == names@[i as int]@);
        assert(rest.drop_first() =~= all.skip(i + 1));
        let c = arch_candidate_exec(names[i].as_str(), prefix.as_slice(), version_prefix.as_slice());
        assert(pair_view(c) == cand(rest[0]));
        match c {
            Some((release, arch)) => {
                if seq_eq(chars_of(arch.as_str()).as_slice(), x86.as_slice()) {
                    return Some((names[i].clone(), release));
                }
                if any.is_none() {
                    any = Some((names[i].clone(), release));
                }
            },
            None => {},
        }
        i = i + 1;
    }
    any
}

// ---------------------------------------------------------------------------
// Package metadata and the generated files' names
// ---------------------------------------------------------------------------

/// Package metadata needed to render the source package templates.
#[derive(Debug, Clone)]
pub struct Pkg {
    pub name: String,
    pub github_repo: String,
    pub description: String,
    pub maintainer: String,
    pub version: String,
    pub build_version: String,
    /// Debian epoch (e.g. "1"); empty means none.
    pub epoch: String,
    pub license_spdx: String,
    pub depends: String,
    pub recommends: String,
    pub suggests: String,
    pub conflicts: String,
    pub replaces: String,
    pub provides: String,
    pub breaks: String,
    pub predepends: String,
    pub section: String,
    pub priority: String,
    /// Extra control fields.
    pub fields: crate::plugins::package_index::keyvalue::KeyValues,
    /// Unix seconds the release was published, for reproducible timestamps.
    pub published_at: Option<i64>,
    /// The upstream license detected from the forge, when known.
    pub license: Option<crate::release::RepoLicense>,
}

/// The Debian policy values the control and `.dsc` files carry: the
/// standards version, the `Build-Depends` line, and the section and
/// priority used when the config leaves them blank.
#[derive(Debug, Clone)]
pub struct DebianConstants {
    pub standards_version: String,
    pub build_depends: String,
    pub default_section: String,
    pub default_priority: String,
}

/// The configured value trimmed, or `default` when it is blank.
pub open spec fn or_default(value: Seq<char>, default: Seq<char>) -> Seq<char> {
    if crate::text::trim(value).len() == 0 {
        default
    } else {
        crate::text::trim(value)
    }
}

fn or_default_exec(value: &str, default: &str) -> (r: String)
    ensures
        r@ == or_default(value@, default@),
{
    let v = chars_of(value);
    let t = crate::text::trim_slice(v.as_slice());
    if t.len() == 0 {
        default.to_string()
    } else {
        string_of(t)
    }
}

/// The names of one Debian source package's files.
#[derive(Debug, Clone)]
pub struct DebianSourceNames {
    /// `<debian_version>-<build>+<dist>`.
    pub src_version: String,
    /// `<pkg>-<src_version>`: the unpacked tree.
    pub tree: String,
    /// `<pkg>_<debian_version>.orig.tar.xz`, shared by every distribution.
    pub orig_name: String,
    /// `<pkg>_<src_version>.debian.tar.xz`.
    pub debian_tar_name: String,
    /// `<pkg>_<src_version>.dsc`.
    pub dsc_name: String,
}

/// Names the files of the Debian source package of `pkg` for `dist`.
pub fn debian_source_names(pkg: &str, debian_version: &str, build_version: &str, dist: &str) -> (r:
    DebianSourceNames)
    ensures
        r.src_version@ == debian_version@ + "-"@ + build_version@ + "+"@ + dist@,
        r.tree@ == pkg@ + "-"@ + r.src_version@,
        r.orig_name@ == pkg@ + "_"@ + debian_version@ + ".orig.tar.xz"@,
        r.debian_tar_name@ == pkg@ + "_"@ + r.src_version@ + ".debian.tar.xz"@,
        r.dsc_name@ == pkg@ + "_"@ + r.src_version@ + ".dsc"@,
{
    let mut src_version = debian_version.to_string();
    src_version.append("-");
    src_version.append(build_version);
    src_version.append("+");
    src_version.append(dist);
    let mut tree = pkg.to_string();
    tree.append("-");
    tree.append(src_version.as_str());
    let mut orig_name = pkg.to_string();
    orig_name.append("_");
    orig_name.append(debian_version);
    orig_name.append(".orig.tar.xz");
    let mut debian_tar_name = pkg.to_string();
    debian_tar_name.append("_");
    debian_tar_name.append(src_version.as_str());
    debian_tar_name.append(".debian.tar.xz");
    let mut dsc_name = pkg.to_string();
    dsc_name.append("_");
    dsc_name.append(src_version.as_str());
    dsc_name.append(".dsc");
    DebianSourceNames { src_version, tree, orig_name, debian_tar_name, dsc_name }
}

// ---------------------------------------------------------------------------
// Debian: debian/control and the .dsc
// ---------------------------------------------------------------------------

/// The `debian/control` of the source tree: the source stanza, then the
/// binary stanza with the rendered relation fields and extra fields.
pub open spec fn control_text(
    pkg: Pkg,
    homepage: Seq<char>,
    relations: Seq<char>,
    c: DebianConstants,
) -> Seq<char> {
    "Source: "@ + pkg.name@ + "\nSection: "@ + or_default(pkg.section@, c.default_section@)
        + "\nPriority: "@ + or_default(pkg.priority@, c.default_priority@) + "\nMaintainer: "@
        + pkg.maintainer@ + "\nHomepage: "@ + homepage + "\nStandards-Version: "@
        + c.standards_version@ + "\nBuild-Depends: "@ + c.build_depends@ + "\n\nPackage: "@
        + pkg.name@ + "\nArchitecture: any\nDescription: "@ + pkg.description@ + "\n"@
        + crate::plugins::PACKAGED_FROM_LINE@ + "\n"@ + relations
        + crate::plugins::extra_fields_text(pkg.fields@)
}

/// Renders the source tree's `debian/control`. `relations` is the rendered
/// relation block of the binary package.
pub fn render_control(pkg: &Pkg, homepage: &str, relations: &str, c: &DebianConstants) -> (r:
    String)
    ensures
        r@ == control_text(*pkg, homepage@, relations@, *c),
{
    let mut s = String::from_str("Source: ");
    s.append(pkg.name.as_str());
    s.append("\nSection: ");
    s.append(or_default_exec(pkg.section.as_str(), c.default_section.as_str()).as_str());
    s.append("\nPriority: ");
    s.append(or_default_exec(pkg.priority.as_str(), c.default_priority.as_str()).as_str());
    s.append("\nMaintainer: ");
    s.append(pkg.maintainer.as_str());
    s.append("\nHomepage: ");
    s.append(homepage);
    s.append("\nStandards-Version: ");
    s.append(c.standards_version.as_str());
    s.append("\nBuild-Depends: ");
    s.append(c.build_depends.as_str());
    s.append("\n\nPackage: ");
    s.append(pkg.name.as_str());
    s.append("\nArchitecture: any\nDescription: ");
    s.append(pkg.description.as_str());
    s.append("\n");
    s.append(crate::plugins::PACKAGED_FROM_LINE);
    s.append("\n");
    s.append(relations);
    s.append(crate::plugins::render_extra_fields(&pkg.fields).as_str());
    s
}

/// One file listed in a `.dsc`: its name, size and digests (lower-case
/// hexadecimal).
#[derive(Debug, Clone)]
pub struct DscFile {
    pub name: String,
    pub size: u64,
    pub md5: String,
    pub sha1: String,
    pub sha256: String,
}

impl DscFile {
    /// The `.dsc` entry of a file named `name` holding `data`.
    pub fn from_bytes(name: String, data: &[u8]) -> (r: Self)
        ensures
            r.name@ == name@,
            r.size == data@.len(),
            r.md5@ == hex_lower(md5_digest(data@)),
            r.sha1@ == hex_lower(sha1_digest(data@)),
            r.sha256@ == hex_lower(sha256_digest(data@)),
    {
        DscFile {
            name,
            size: data.len() as u64,
            md5: md5_hex(data),
            sha1: sha1_hex(data),
            sha256: sha256_hex(data),
        }
    }
}

/// One checksum line of a `.dsc`: ` <sum> <size> <name>`.
pub open spec fn dsc_line(sum: Seq<char>, f: DscFile) -> Seq<char> {
    " "@ + sum + " "@ + crate::text::decimal(f.size as nat) + " "@ + f.name@ + "\n"@
}

/// The `.dsc` of a source package: dpkg-source's field order, the orig
/// tarball listed before the debian one in each checksum block.
pub open spec fn dsc_text(
    pkg: Pkg,
    content_version: Seq<char>,
    homepage: Seq<char>,
    c: DebianConstants,
    orig: DscFile,
    debian: DscFile,
) -> Seq<char> {
    "Format: 3.0 (quilt)\nSource: "@ + pkg.name@ + "\nBinary: "@ + pkg.name@
        + "\nArchitecture: any\nVersion: "@ + content_version + "\nMaintainer: "@
        + pkg.maintainer@ + "\nHomepage: "@ + homepage + "\nStandards-Version: "@
        + c.standards_version@ + "\nBuild-Depends: "@ + c.build_depends@
        + "\nPackage-List:\n "@ + pkg.name@ + " deb "@ + or_default(
        pkg.section@,
        c.default_section@,
    ) + " "@ + or_default(pkg.priority@, c.default_priority@) + " arch=any\nChecksums-Sha1:\n"@
        + dsc_line(orig.sha1@, orig) + dsc_line(debian.sha1@, debian) + "Checksums-Sha256:\n"@
        + dsc_line(orig.sha256@, orig) + dsc_line(debian.sha256@, debian) + "Files:\n"@
        + dsc_line(orig.md5@, orig) + dsc_line(debian.md5@, debian)
}

fn push_dsc_line(s: &mut String, sum: &str, f: &DscFile)
    ensures
        final(s)@ == old(s)@ + dsc_line(sum@, *f),
{
    s.append(" ");
    s.append(sum);
    s.append(" ");
    let d = crate::text::decimal_exec(f.size);
    s.append(string_of(d.as_slice()).as_str());
    s.append(" ");
    s.append(f.name.as_str());
    s.append("\n");
}

/// Renders the unsigned `.dsc` of a source package whose version fields say
/// `content_version`.
pub fn render_dsc(
    pkg: &Pkg,
    content_version: &str,
    homepage: &str,
    c: &DebianConstants,
    orig: &DscFile,
    debian: &DscFile,
) -> (r: String)
    ensures
        r@ == dsc_text(*pkg, content_version@, homepage@, *c, *orig, *debian),
{
    let mut s = String::from_str("Format: 3.0 (quilt)\nSource: ");
    s.append(pkg.name.as_str());
    s.append("\nBinary: ");
    s.append(pkg.name.as_str());
    s.append("\nArchitecture: any\nVersion: ");
    s.append(content_version);
    s.append("\nMaintainer: ");
    s.append(pkg.maintainer.as_str());
    s.append("\nHomepage: ");
    s.append(homepage);
    s.append("\nStandards-Version: ");
    s.append(c.standards_version.as_str());
    s.append("\nBuild-Depends: ");
    s.append(c.build_depends.as_str());
    s.append("\nPackage-List:\n ");
    s.append(pkg.name.as_str());
    s.append(" deb ");
    s.append(or_default_exec(pkg.section.as_str(), c.default_section.as_str()).as_str());
    s.append(" ");
    s.append(or_default_exec(pkg.priority.as_str(), c.default_priority.as_str()).as_str());
    s.append(" arch=any\nChecksums-Sha1:\n");
    push_dsc_line(&mut s, orig.sha1.as_str(), orig);
    push_dsc_line(&mut s, debian.sha1.as_str(), debian);
    s.append("Checksums-Sha256:\n");
    push_dsc_line(&mut s, orig.sha256.as_str(), orig);
    push_dsc_line(&mut s, debian.sha256.as_str(), debian);
    s.append("Files:\n");
    push_dsc_line(&mut s, orig.md5.as_str(), orig);
    push_dsc_line(&mut s, debian.md5.as_str(), debian);
    s
}

// ---------------------------------------------------------------------------
// RPM: the .src.rpm's spec file
// ---------------------------------------------------------------------------

/// What jiff writes for the UTC instant `secs` under the `strftime` layout
/// `format`, or `None` when `secs` is outside jiff's range.
pub uninterp spec fn strftime_utc(secs: i64, format: Seq<char>) -> Option<Seq<char>>;

/// `jiff::Timestamp::from_second(secs)` formatted with `strftime(format)`.
/// The contract ties the text to `strftime_utc` and claims nothing of it.
#[verifier::external_body]
fn format_utc(secs: i64, format: &str) -> (r: Option<String>)
    ensures
        crate::text::opt_view(r) == strftime_utc(secs, format@),
{
    jiff::Timestamp::from_second(secs).ok().map(|t| t.strftime(format).to_string())
}

/// The date of the spec file's changelog entry (`Mon Jan 02 2006`), empty
/// when the instant is out of range.
pub open spec fn changelog_date_of(secs: i64) -> Seq<char> {
    match strftime_utc(secs, "%a %b %d %Y"@) {
        Some(d) => d,
        None => Seq::empty(),
    }
}

/// The `%description` of a source RPM: the summary, then where it was
/// packaged from.
pub open spec fn srpm_description_of(summary: Seq<char>, homepage: Seq<char>) -> Seq<char> {
    summary + "\nPackaged from the upstream release ("@ + homepage
        + ") for RPM-based distributions."@
}

/// The `%description` of a source RPM.
pub fn srpm_description(summary: &str, homepage: &str) -> (r: String)
    ensures
        r@ == srpm_description_of(summary@, homepage@),
{
    let mut s = summary.to_string();
    s.append("\nPackaged from the upstream release (");
    s.append(homepage);
    s.append(") for RPM-based distributions.");
    s
}

/// The license a package declares: the SPDX id trimmed, or `fallback` when
/// it is blank (`NOASSERTION` for RPM, `custom` for Arch).
pub fn license_or(spdx: &str, fallback: &str) -> (r: String)
    ensures
        r@ == or_default(spdx@, fallback@),
{
    or_default_exec(spdx, fallback)
}

/// The names of a source RPM's files: the spec file, the source tarball and
/// the package itself.
pub fn srpm_names(pkg: &str, version: &str, release: &str) -> (r: (String, String, String))
    ensures
        r.0@ == pkg@ + ".spec"@,
        r.1@ == pkg@ + "-"@ + version@ + ".tar.xz"@,
        r.2@ == pkg@ + "-"@ + version@ + "-"@ + release@ + ".src.rpm"@,
{
    let mut spec = pkg.to_string();
    spec.append(".spec");
    let mut source = pkg.to_string();
    source.append("-");
    source.append(version);
    source.append(".tar.xz");
    let mut srpm = pkg.to_string();
    srpm.append("-");
    srpm.append(version);
    srpm.append("-");
    srpm.append(release);
    srpm.append(".src.rpm");
    (spec, source, srpm)
}

/// The spec file of a source RPM that repackages the prebuilt `usr/` tree.
pub open spec fn rpm_spec_text(
    meta: crate::rpmarchive::PackageMeta,
    maintainer: Seq<char>,
    homepage: Seq<char>,
    source_name: Seq<char>,
    changelog_date: Seq<char>,
) -> Seq<char> {
    "Name: "@ + meta.name@ + "\nVersion: "@ + meta.version@ + "\nRelease: "@ + meta.release@
        + "\nSummary: "@ + meta.summary@ + "\nLicense: "@ + meta.license@ + "\nURL: "@ + homepage
        + "\nSource0: "@ + source_name + "\n\n%description\n"@ + meta.description@
        + "\n\n%prep\n%setup -q -c -n "@ + meta.name@ + "-"@ + meta.version@
        + "\n\n%build\n# Pre-built upstream binary; nothing to compile.\n\n%install\nrm -rf %{buildroot}\nmkdir -p %{buildroot}\ncp -a usr %{buildroot}/\n\n%files\n/usr/*\n\n%changelog\n* "@
        + changelog_date + " "@ + maintainer + "\n- Packaged "@ + meta.version@ + "-"@
        + meta.release@ + " from the upstream release for RPM-based distributions.\n"@
}

/// Renders the spec file of a source RPM, dated `source_date_epoch`.
pub fn render_rpm_spec(
    meta: &crate::rpmarchive::PackageMeta,
    maintainer: &str,
    homepage: &str,
    source_name: &str,
    source_date_epoch: i64,
) -> (r: String)
    ensures
        r@ == rpm_spec_text(
            *meta,
            maintainer@,
            homepage@,
            source_name@,
            changelog_date_of(source_date_epoch),
        ),
{
    let date = match format_utc(source_date_epoch, "%a %b %d %Y") {
        Some(d) => d,
        None => String::new(),
    };
    let mut s = String::from_str("Name: ");
    s.append(meta.name);
    s.append("\nVersion: ");
    s.append(meta.version);
    s.append("\nRelease: ");
    s.append(meta.release);
    s.append("\nSummary: ");
    s.append(meta.summary);
    s.append("\nLicense: ");
    s.append(meta.license);
    s.append("\nURL: ");
    s.append(homepage);
    s.append("\nSource0: ");
    s.append(source_name);
    s.append("\n\n%description\n");
    s.append(meta.description);
    s.append("\n\n%prep\n%setup -q -c -n ");
    s.append(meta.name);
    s.append("-");
    s.append(meta.version);
    s.append(
        "\n\n%build\n# Pre-built upstream binary; nothing to compile.\n\n%install\nrm -rf %{buildroot}\nmkdir -p %{buildroot}\ncp -a usr %{buildroot}/\n\n%files\n/usr/*\n\n%changelog\n* ",
    );
    s.append(date.as_str());
    s.append(" ");
    s.append(maintainer);
    s.append("\n- Packaged ");
    s.append(meta.version);
    s.append("-");
    s.append(meta.release);
    s.append(" from the upstream release for RPM-based distributions.\n");
    s
}

// ---------------------------------------------------------------------------
// Arch: the PKGBUILD
// ---------------------------------------------------------------------------

/// One element of a bash array in single quotes, with each `'` written as
/// `'\''`.
pub open spec fn single_quoted(e: Seq<char>) -> Seq<char> {
    "'"@ + crate::text::replace_char(e, '\'', "'\\''"@) + "'"@
}

/// The inside of a bash array: the elements single-quoted, separated by
/// spaces; empty when there are none.
pub open spec fn quote_array_of(items: Seq<Seq<char>>) -> Seq<char> {
    crate::text::join(items.map_values(|e: Seq<char>| single_quoted(e)), " "@)
}

/// Renders pacman entries as the inside of a PKGBUILD bash array.
pub fn quote_array(items: &Vec<String>) -> (r: String)
    ensures
        r@ == quote_array_of(items.deep_view()),
{
    let ghost all = items.deep_view();
    let ghost qs = all.map_values(|e: Seq<char>| single_quoted(e));
    let escaped = chars_of("'\\''");
    let mut parts: Vec<Vec<char>> = Vec::new();
    let mut i: usize = 0;
    while i < items.len()
        invariant
            i <= items.len(),
            all == items.deep_view(),
            qs == all.map_values(|e: Seq<char>| single_quoted(e)),
            escaped@ == "'\\''"@,
            parts.deep_view() == qs.take(i as int),
        decreases items.len() - i,
    {
        assert(all[i as int] == items@[i as int]@);
        let e = chars_of(items[i].as_str());
        let mut q: Vec<char> = Vec::new();
        q.push('\'');
        let body = crate::text::replace_char_exec(e.as_slice(), '\'', escaped.as_slice());
        crate::text::append_chars(&mut q, body.as_slice());
        q.push('\'');
        proof {
            reveal_strlit("'");
        }
        assert(q@ =~= single_quoted(all[i as int]));
        let ghost qv = q@;
        assert(q.deep_view() =~= qv);
        let ghost before = parts.deep_view();
        parts.push(q);
        assert(parts.deep_view() =~= before.push(qv));
        assert(qs.take(i + 1) =~= qs.take(i as int).push(qv));
        i = i + 1;
    }
    assert(qs.take(items.len() as int) =~= qs);
    let sep = chars_of(" ");
    let j = crate::text::join_exec(&parts, sep.as_slice());
    string_of(j.as_slice())
}

/// A package's relations translated to pacman names, per Debian field.
#[derive(Debug, Clone)]
pub struct PacmanRelations {
    pub depends: Vec<String>,
    pub recommends: Vec<String>,
    pub suggests: Vec<String>,
    pub provides: Vec<String>,
    pub conflicts: Vec<String>,
    pub breaks: Vec<String>,
    pub replaces: Vec<String>,
}

/// A PKGBUILD array line, `key=(value)`, left out when the value is empty.
pub open spec fn array_line(key: Seq<char>, value: Seq<char>) -> Seq<char> {
    if value.len() == 0 {
        Seq::empty()
    } else {
        key + "=("@ + value + ")\n"@
    }
}

/// The relation arrays of a PKGBUILD: `depends`, `optdepends` (recommends
/// then suggests), `provides`, `conflicts` (conflicts then breaks) and
/// `replaces`, each only when not empty.
pub open spec fn pkgbuild_relations(rel: PacmanRelations) -> Seq<char> {
    array_line("depends"@, quote_array_of(rel.depends.deep_view())) + array_line(
        "optdepends"@,
        quote_array_of(rel.recommends.deep_view() + rel.suggests.deep_view()),
    ) + array_line("provides"@, quote_array_of(rel.provides.deep_view())) + array_line(
        "conflicts"@,
        quote_array_of(rel.conflicts.deep_view() + rel.breaks.deep_view()),
    ) + array_line("replaces"@, quote_array_of(rel.replaces.deep_view()))
}

fn push_array_line(s: &mut String, key: &str, value: &String)
    ensures
        final(s)@ == old(s)@ + array_line(key@, value@),
{
    if value.as_str().is_empty() {
        assert(old(s)@ + array_line(key@, value@) =~= old(s)@);
    } else {
        s.append(key);
        s.append("=(");
        s.append(value.as_str());
        s.append(")\n");
    }
}

fn concat_lists(a: &Vec<String>, b: &Vec<String>) -> (r: Vec<String>)
    ensures
        r.deep_view() == a.deep_view() + b.deep_view(),
{
    let mut out: Vec<String> = Vec::new();
    let mut i: usize = 0;
    while i < a.len()
        invariant
            i <= a.len(),
            out.deep_view() == a.deep_view().take(i as int),
        decreases a.len() - i,
    {
        let ghost before = out.deep_view();
        out.push(a[i].clone());
        assert(out.deep_view() =~= before.push(a.deep_view()[i as int]));
        assert(a.deep_view().take(i + 1) =~= a.deep_view().take(i as int).push(a.deep_view()[i as int]));
        i = i + 1;
    }
    let mut j: usize = 0;
    assert(a.deep_view().take(a.len() as int) =~= a.deep_view());
    while j < b.len()
        invariant
            j <= b.len(),
            out.deep_view() == a.deep_view() + b.deep_view().take(j as int),
        decreases b.len() - j,
    {
        let ghost before = out.deep_view();
        out.push(b[j].clone());
        assert(out.deep_view() =~= before.push(b.deep_view()[j as int]));
        assert(a.deep_view() + b.deep_view().take(j + 1) =~= (a.deep_view() + b.deep_view().take(j as int)).push(b.deep_view()[j as int]));
        j = j + 1;
    }
    assert(b.deep_view().take(b.len() as int) =~= b.deep_view());
    out
}

/// The `epoch=` line of a PKGBUILD, when the package has an epoch.
pub open spec fn epoch_line(epoch: Seq<char>) -> Seq<char> {
    if crate::text::trim(epoch).len() == 0 {
        Seq::empty()
    } else {
        "epoch="@ + crate::text::trim(epoch) + "\n"@
    }
}

/// The fields of a PKGBUILD before its relation arrays; double quotes in
/// the description are escaped.
pub open spec fn pkgbuild_head(
    pkg: Pkg,
    version: Seq<char>,
    release: Seq<char>,
    homepage: Seq<char>,
    license: Seq<char>,
) -> Seq<char> {
    "# Packaged from the upstream release for Arch Linux (generated by lx).\npkgname="@
        + pkg.name@ + "\npkgver="@ + version + "\npkgrel="@ + release + "\n"@ + epoch_line(
        pkg.epoch@,
    ) + "pkgdesc=\""@ + crate::text::replace_char(pkg.description@, '"', "\\\""@)
        + "\"\narch=('x86_64' 'aarch64')\nurl=\""@ + homepage + "\"\nlicense=('"@ + license
        + "')\n"@
}

/// The fields of a PKGBUILD after its relation arrays, and the `package()`
/// function that copies the tree.
pub open spec fn pkgbuild_tail(source_name: Seq<char>, sha256: Seq<char>) -> Seq<char> {
    "source=(\""@ + source_name + "\")\nsha256sums=('"@ + sha256
        + "')\n\npackage() {\n\tcp -a usr \"$pkgdir/\"\n}\n"@
}

/// The PKGBUILD of a package repackaging the prebuilt `usr/` tree, in
/// makepkg's field order.
pub open spec fn pkgbuild_text(
    pkg: Pkg,
    version: Seq<char>,
    release: Seq<char>,
    homepage: Seq<char>,
    license: Seq<char>,
    source_name: Seq<char>,
    sha256: Seq<char>,
    rel: PacmanRelations,
) -> Seq<char> {
    pkgbuild_head(pkg, version, release, homepage, license) + pkgbuild_relations(rel)
        + pkgbuild_tail(source_name, sha256)
}

fn render_pkgbuild_head(pkg: &Pkg, version: &str, release: &str, homepage: &str, license: &str) -> (r: String)
    ensures
        r@ == pkgbuild_head(*pkg, version@, release@, homepage@, license@),
{
    let mut s = String::from_str(
        "# Packaged from the upstream release for Arch Linux (generated by lx).\npkgname=",
    );
    s.append(pkg.name.as_str());
    s.append("\npkgver=");
    s.append(version);
    s.append("\npkgrel=");
    s.append(release);
    s.append("\n");
    let ghost before_epoch = s@;
    let e = chars_of(pkg.epoch.as_str());
    let et = crate::text::trim_slice(e.as_slice());
    if et.len() > 0 {
        s.append("epoch=");
        s.append(string_of(et).as_str());
        s.append("\n");
    }
    assert(s@ =~= before_epoch + epoch_line(pkg.epoch@));
    s.append("pkgdesc=\"");
    let d = chars_of(pkg.description.as_str());
    let esc = chars_of("\\\"");
    let desc = crate::text::replace_char_exec(d.as_slice(), '"', esc.as_slice());
    s.append(string_of(desc.as_slice()).as_str());
    s.append("\"\narch=('x86_64' 'aarch64')\nurl=\"");
    s.append(homepage);
    s.append("\"\nlicense=('");
    s.append(license);
    s.append("')\n");
    s
}

fn render_pkgbuild_relations(rel: &PacmanRelations) -> (r: String)
    ensures
        r@ == pkgbuild_relations(*rel),
{
    let mut s = String::new();
    push_array_line(&mut s, "depends", &quote_array(&rel.depends));
    push_array_line(&mut s, "optdepends", &quote_array(&concat_lists(&rel.recommends, &rel.suggests)));
    push_array_line(&mut s, "provides", &quote_array(&rel.provides));
    push_array_line(&mut s, "conflicts", &quote_array(&concat_lists(&rel.conflicts, &rel.breaks)));
    push_array_line(&mut s, "replaces", &quote_array(&rel.replaces));
    assert(s@ =~= pkgbuild_relations(*rel));
    s
}

/// Renders the PKGBUILD of `pkg` with the relations already translated to
/// pacman names.
pub fn render_pkgbuild(
    pkg: &Pkg,
    version: &str,
    release: &str,
    homepage: &str,
    license: &str,
    source_name: &str,
    sha256: &str,
    rel: &PacmanRelations,
) -> (r: String)
    ensures
        r@ == pkgbuild_text(*pkg, version@, release@, homepage@, license@, source_name@, sha256@, *rel),
{
    let mut s = render_pkgbuild_head(pkg, version, release, homepage, license);
    s.append(render_pkgbuild_relations(rel).as_str());
    s.append("source=(\"");
    s.append(source_name);
    s.append("\")\nsha256sums=('");
    s.append(sha256);
    s.append("')\n\npackage() {\n\tcp -a usr \"$pkgdir/\"\n}\n");
    s
}

proof fn lemma_add_new_no_duplicates(acc: Seq<Seq<char>>, x: Option<Seq<char>>)
    requires
        acc.no_duplicates(),
    ensures
        add_new(acc, x).no_duplicates(),
{
    match x {
        Some(d) => if !acc.contains(d) {
            let n = acc.push(d);
            assert forall|i: int, j: int| 0 <= i < n.len() && 0 <= j < n.len() && i != j implies n[i] != n[j] by {
                if i < acc.len() && j < acc.len() {
                    assert(n[i] == acc[i] && n[j] == acc[j]);
                } else if i < acc.len() {
                    assert(n[i] == acc[i]);
                } else if j < acc.len() {
                    assert(n[j] == acc[j]);
                }
            }
        },
        None => {},
    }
}

/// Each distribution is collected once: neither the `.deb` nor the `.rpm`
/// distributions repeat.
pub proof fn lemma_dists_unique(names: Seq<Seq<char>>, pkg: Seq<char>)
    ensures
        deb_dists(names, pkg).no_duplicates(),
        rpm_dists(names, pkg).no_duplicates(),
    decreases names.len(),
{
    if names.len() > 0 {
        lemma_dists_unique(names.drop_last(), pkg);
        lemma_add_new_no_duplicates(deb_dists(names.drop_last(), pkg), deb_dist_of(names.last(), pkg));
        lemma_add_new_no_duplicates(rpm_dists(names.drop_last(), pkg), rpm_dist_of(names.last(), pkg));
    }
}

} // verus!
