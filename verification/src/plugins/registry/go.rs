//! The `go` registry source.
use vstd::prelude::*;

use super::RegistrySource;
use crate::plugins::plugin::Plugin;
use crate::text::{
    chars_of, ends_with, ends_with_exec, seq_eq, starts_with, starts_with_exec, string_of, trim,
    trim_slice,
};

verus! {

/// Fetches packages from the `go` registry.
pub struct GoRegistrySource;

impl Plugin for GoRegistrySource {
    open spec fn spec_name(&self) -> Seq<char> {
        "go"@
    }

    fn name(&self) -> (r: &'static str) {
        "go"
    }

    open spec fn spec_description(&self) -> Seq<char> {
        "Go modules (pkg.go.dev) \u{2014} go build static binary"@
    }

    fn description(&self) -> (r: &'static str) {
        "Go modules (pkg.go.dev) \u{2014} go build static binary"
    }
}

impl RegistrySource for GoRegistrySource {
    fn required_tools(&self) -> (r: Vec<&'static str>)
        ensures
            r.deep_view() == seq!["go"@],
    {
        let r = vec!["go"];
        assert(r.deep_view() =~= seq!["go"@]);
        r
    }
}

/// The `go get` argument: the module, or `module@version`.
pub open spec fn go_dep_spec_of(module: Seq<char>, version: Seq<char>) -> Seq<char> {
    if trim(version).len() == 0 {
        module
    } else {
        module + "@"@ + trim(version)
    }
}

/// The `go get` argument for a module at a version.
pub fn go_dep_spec(module: &str, version: &str) -> (r: String)
    ensures
        r@ == go_dep_spec_of(module@, version@),
{
    let v = chars_of(version);
    let t = trim_slice(v.as_slice());
    let mut s = module.to_string();
    if t.len() > 0 {
        s.append("@");
        s.append(string_of(t).as_str());
    }
    s
}

/// The version a Go build resolved: the `Version` of `go list -m -json`
/// when it succeeded (`0.0.0` when its output has none), else the requested
/// version trimmed.
pub open spec fn go_resolved_version_of(list_ok: bool, stdout: Seq<u8>, requested: Seq<char>) -> Seq<char> {
    if list_ok {
        match super::json::json_str_field_of(stdout, "Version"@) {
            Some(v) => v,
            None => "0.0.0"@,
        }
    } else {
        trim(requested)
    }
}

/// The version a Go build resolved.
pub fn go_resolved_version(list_ok: bool, stdout: &[u8], requested: &str) -> (r: String)
    ensures
        r@ == go_resolved_version_of(list_ok, stdout@, requested@),
{
    if list_ok {
        match super::json::json_str_field(stdout, "Version") {
            Some(v) => v,
            None => "0.0.0".to_string(),
        }
    } else {
        let rq = chars_of(requested);
        string_of(trim_slice(rq.as_slice()))
    }
}

/// The description of a Go tool: the configured one, else one naming the
/// module.
pub fn go_description(configured: &str, module: &str) -> (r: String)
    ensures
        r@ == (if configured@.len() == 0 { "Go CLI tool from "@ + module@ } else { configured@ }),
{
    if configured.is_empty() {
        let mut s = String::from_str("Go CLI tool from ");
        s.append(module);
        s
    } else {
        configured.to_string()
    }
}

/// Whether a file is Go source that can hold a `main` package (not a test).
pub fn is_go_source(name: &str) -> (r: bool)
    ensures
        r == (ends_with(name@, ".go"@) && !ends_with(name@, "_test.go"@)),
{
    let n = chars_of(name);
    ends_with_exec(n.as_slice(), chars_of(".go").as_slice()) && !ends_with_exec(
        n.as_slice(),
        chars_of("_test.go").as_slice(),
    )
}

/// Whether the scan for `main` packages skips a directory.
pub fn skip_go_dir(name: &str) -> (r: bool)
    ensures
        r == (name@ == "vendor"@ || name@ == ".git"@ || name@ == "testdata"@),
{
    let n = chars_of(name);
    seq_eq(n.as_slice(), chars_of("vendor").as_slice()) || seq_eq(n.as_slice(), chars_of(".git").as_slice())
        || seq_eq(n.as_slice(), chars_of("testdata").as_slice())
}

/// The import path of a `main` package found in directory `rel` of the
/// module (`\` read as `/`).
pub open spec fn go_package_path_of(module: Seq<char>, rel: Seq<char>) -> Seq<char> {
    let r = crate::text::replace_char(rel, '\\', "/"@);
    if r.len() == 0 || r == "."@ {
        module
    } else {
        module + "/"@ + r
    }
}

/// The import path of a `main` package found in directory `rel`.
pub fn go_package_path(module: &str, rel: &str) -> (r: String)
    ensures
        r@ == go_package_path_of(module@, rel@),
{
    let rc = chars_of(rel);
    let r = crate::text::replace_char_exec(rc.as_slice(), '\\', chars_of("/").as_slice());
    if r.len() == 0 || seq_eq(r.as_slice(), chars_of(".").as_slice()) {
        module.to_string()
    } else {
        let mut s = module.to_string();
        s.append("/");
        s.append(string_of(r.as_slice()).as_str());
        s
    }
}

/// `candidate` is not a found package but prefixes one.
pub open spec fn adds_candidate(found: Seq<Seq<char>>, candidate: Seq<char>) -> bool {
    !found.contains(candidate) && exists|i: int| 0 <= i < found.len() && starts_with(#[trigger] found[i], candidate)
}

/// The found `main` packages plus the module root and its `cmd` directory
/// when they are not themselves found but prefix a found package.
pub open spec fn with_candidates(found: Seq<Seq<char>>, module: Seq<char>) -> Seq<Seq<char>> {
    let c1 = module;
    let c2 = module + "/cmd"@;
    found + (if adds_candidate(found, c1) { seq![c1] } else { Seq::empty() }) + (if adds_candidate(found, c2) { seq![c2] } else { Seq::empty() })
}

/// Where a string of length `n` goes among strings sorted by length,
/// after every one not longer than it.
pub open spec fn len_slot(sorted: Seq<Seq<char>>, n: nat) -> int
    decreases sorted.len(),
{
    if sorted.len() == 0 {
        0
    } else if sorted[0].len() > n {
        0
    } else {
        1 + len_slot(sorted.drop_first(), n)
    }
}

/// `s` sorted by length, strings of equal length kept in their order
/// (`sort_by_key(len)`).
pub open spec fn sort_by_len(s: Seq<Seq<char>>) -> Seq<Seq<char>>
    decreases s.len(),
{
    if s.len() == 0 {
        Seq::empty()
    } else {
        let r = sort_by_len(s.drop_last());
        r.insert(len_slot(r, s.last().len()), s.last())
    }
}

/// `s` without consecutive repeats (`Vec::dedup`).
pub open spec fn dedup(s: Seq<Seq<char>>) -> Seq<Seq<char>>
    decreases s.len(),
{
    if s.len() == 0 {
        Seq::empty()
    } else {
        let r = dedup(s.drop_last());
        if s.len() > 1 && s[s.len() - 2] == s.last() {
            r
        } else {
            r.push(s.last())
        }
    }
}

proof fn lemma_len_slot(sorted: Seq<Seq<char>>, n: nat)
    ensures
        0 <= len_slot(sorted, n) <= sorted.len(),
    decreases sorted.len(),
{
    if sorted.len() > 0 && sorted[0].len() <= n {
        lemma_len_slot(sorted.drop_first(), n);
    }
}

/// The `main` packages to build from, shortest first: the found ones plus
/// the candidates they imply, stably sorted by length, repeats dropped.
pub fn finalize_main_packages(found: &Vec<String>, module: &str) -> (r: Vec<String>)
    ensures
        r.deep_view() == dedup(sort_by_len(with_candidates(found.deep_view(), module@))),
{
    let ghost fv = found.deep_view();
    let mut all: Vec<String> = Vec::new();
    let mut i: usize = 0;
    while i < found.len()
        invariant
            i <= found.len(),
            fv == found.deep_view(),
            all.deep_view() == fv.take(i as int),
        decreases found.len() - i,
    {
        let ghost before = all.deep_view();
        all.push(found[i].clone());
        assert(all.deep_view() =~= before.push(fv[i as int]));
        assert(fv.take(i + 1) =~= fv.take(i as int).push(fv[i as int]));
        i = i + 1;
    }
    assert(fv.take(found.len() as int) =~= fv);
    let c1 = module.to_string();
    let mut c2 = module.to_string();
    c2.append("/cmd");
    let ghost base = all.deep_view();
    let mut k: usize = 0;
    while k < 2
        invariant
            k <= 2,
            fv == found.deep_view(),
            base == fv,
            c1@ == module@,
            c2@ == module@ + "/cmd"@,
            k == 0 ==> all.deep_view() == fv,
            k == 1 ==> all.deep_view() == fv + (if adds_candidate(fv, c1@) { seq![c1@] } else { Seq::empty() }),
            k == 2 ==> all.deep_view() == with_candidates(fv, module@),
        decreases 2 - k,
    {
        let c = if k == 0 { &c1 } else { &c2 };
        let cc = chars_of(c.as_str());
        let listed = crate::sorted::holds(found, cc.as_slice());
        let mut prefixes = false;
        let mut j: usize = 0;
        while j < found.len()
            invariant
                j <= found.len(),
                fv == found.deep_view(),
                cc@ == c@,
                prefixes <==> exists|a: int| 0 <= a < j && starts_with(#[trigger] fv[a], c@),
            decreases found.len() - j,
        {
            assert(fv[j as int] == found@[j as int]@);
            if starts_with_exec(chars_of(found[j].as_str()).as_slice(), cc.as_slice()) {
                prefixes = true;
            }
            j = j + 1;
        }
        let ghost before = all.deep_view();
        if !listed && prefixes {
            all.push(c.clone());
            assert(all.deep_view() =~= before.push(c@));
        }
        proof {
            if k == 0 {
                assert(all.deep_view() =~= fv + (if adds_candidate(fv, c1@) { seq![c1@] } else { Seq::<Seq<char>>::empty() }));
            } else {
                assert(all.deep_view() =~= with_candidates(fv, module@));
            }
        }
        k = k + 1;
    }
    let ghost av = all.deep_view();
    let mut sorted: Vec<String> = Vec::new();
    let mut a: usize = 0;
    assert(av.take(0) =~= Seq::<Seq<char>>::empty());
    while a < all.len()
        invariant
            a <= all.len(),
            av == all.deep_view(),
            sorted.deep_view() == sort_by_len(av.take(a as int)),
        decreases all.len() - a,
    {
        assert(av.take(a + 1).drop_last() =~= av.take(a as int));
        assert(av.take(a + 1).last() == all@[a as int]@);
        let ghost sv = sorted.deep_view();
        let x = all[a].clone();
        let n = chars_of(x.as_str()).len();
        proof {
            lemma_len_slot(sv, x@.len());
        }
        let mut p: usize = 0;
        assert(sv.skip(0) =~= sv);
        while p < sorted.len() && chars_of(sorted[p].as_str()).len() <= n
            invariant
                p <= sorted.len(),
                sv == sorted.deep_view(),
                n == x@.len(),
                len_slot(sv, x@.len()) == p + len_slot(sv.skip(p as int), x@.len()),
            decreases sorted.len() - p,
        {
            assert(sv.skip(p as int)[0] == sorted@[p as int]@);
            assert(sv.skip(p as int).drop_first() =~= sv.skip(p + 1));
            p = p + 1;
        }
        proof {
            if p < sorted.len() {
                assert(sv.skip(p as int)[0] == sorted@[p as int]@);
            }
            assert(len_slot(sv, x@.len()) == p);
        }
        let ghost xv = x@;
        sorted.insert(p, x);
        assert(sorted.deep_view() =~= sv.insert(p as int, xv));
        a = a + 1;
    }
    assert(av.take(all.len() as int) =~= av);
    let ghost ss = sorted.deep_view();
    let mut out: Vec<String> = Vec::new();
    let mut b: usize = 0;
    assert(ss.take(0) =~= Seq::<Seq<char>>::empty());
    while b < sorted.len()
        invariant
            b <= sorted.len(),
            ss == sorted.deep_view(),
            out.deep_view() == dedup(ss.take(b as int)),
        decreases sorted.len() - b,
    {
        let ghost t = ss.take(b + 1);
        assert(t.drop_last() =~= ss.take(b as int));
        assert(t.last() == sorted@[b as int]@);
        let same = b > 0 && seq_eq(chars_of(sorted[b - 1].as_str()).as_slice(), chars_of(sorted[b].as_str()).as_slice());
        if b > 0 {
            assert(t[t.len() - 2] == sorted@[b - 1]@);
        }
        if !same {
            let ghost before = out.deep_view();
            out.push(sorted[b].clone());
            assert(out.deep_view() =~= before.push(ss[b as int]));
        }
        b = b + 1;
    }
    assert(ss.take(sorted.len() as int) =~= ss);
    out
}

} // verus!
