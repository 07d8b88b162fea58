//! `build_mode: source`: the decisions of a host compile. The version to
//! build, the native-architecture rule, the build system to use, where the
//! source tarball comes from and the `Depends` computed from the staged
//! binaries. Fetching, compiling and wrapping stay outside.
use vstd::prelude::*;

use crate::sorted::{sorted_set, sorted_set_exec};
use crate::text::{
    chars_of, join, join_exec, split_class, split_class_exec, string_of, strip_suffix_all,
    strip_suffix_all_exec, trim, trim_all, trim_slice,
};

verus! {

/// Why a source build stops before it compiles.
#[derive(Debug, Clone)]
pub enum SourceBuildError {
    /// A requested architecture is not the host's: source builds are
    /// native-only.
    NotNative { requested: String, host: String },
    /// No suite is left to build after the distributions were resolved.
    NoSuites,
}

/// A comma-separated option value, each piece trimmed
/// (`--architectures amd64, arm64`).
pub open spec fn comma_list(s: Seq<char>) -> Seq<Seq<char>> {
    trim_all(split_class(s, false, seq![',']))
}

/// Splits a comma-separated option value into its trimmed pieces.
pub fn split_comma_list(s: &str) -> (r: Vec<String>)
    ensures
        r.deep_view() == comma_list(s@),
{
    let v = chars_of(s);
    let comma: Vec<char> = vec![','];
    assert(comma@ =~= seq![',']);
    let pieces = split_class_exec(v.as_slice(), false, comma.as_slice());
    let ghost ps = pieces.deep_view();
    let mut out: Vec<String> = Vec::new();
    let mut i: usize = 0;
    while i < pieces.len()
        invariant
            i <= pieces.len(),
            ps == pieces.deep_view(),
            ps == split_class(s@, false, seq![',']),
            out.deep_view() == trim_all(ps.take(i as int)),
        decreases pieces.len() - i,
    {
        assert(ps[i as int] == pieces@[i as int]@);
        let t = trim_slice(pieces[i].as_slice());
        let ghost before = out.deep_view();
        out.push(string_of(t));
        assert(out.deep_view() =~= before.push(t@));
        assert(trim_all(ps.take(i + 1)) =~= trim_all(ps.take(i as int)).push(t@));
        i = i + 1;
    }
    assert(ps.take(pieces.len() as int) =~= ps);
    out
}

/// Source builds compile on the host once: every requested architecture must
/// be the host's. The error names the first that is not.
pub fn check_native(requested: &Vec<String>, host: &str) -> (r: Result<(), SourceBuildError>)
    ensures
        r is Ok <==> forall|i: int|
            0 <= i < requested.len() ==> requested.deep_view()[i] == host@,
        r matches Err(e) ==> e matches SourceBuildError::NotNative { requested: a, host: h } && h@
            == host@ && exists|k: int|
            0 <= k < requested.len() && requested.deep_view()[k] != host@ && a@
                == requested.deep_view()[k] && forall|j: int|
                0 <= j < k ==> requested.deep_view()[j] == host@,
{
    let ghost rs = requested.deep_view();
    let mut i: usize = 0;
    while i < requested.len()
        invariant
            i <= requested.len(),
            rs == requested.deep_view(),
            forall|k: int| 0 <= k < i ==> rs[k] == host@,
        decreases requested.len() - i,
    {
        assert(rs[i as int] == requested@[i as int]@);
        if !crate::text::seq_eq(
            chars_of(requested[i].as_str()).as_slice(),
            chars_of(host).as_slice(),
        ) {
            let a = requested[i].clone();
            assert(a@ == rs[i as int]);
            return Err(SourceBuildError::NotNative { requested: a, host: host.to_string() });
        }
        i = i + 1;
    }
    Ok(())
}

/// The version to build when the caller or the config names one: the
/// command line's when it is not blank, else the config's when that is not
/// blank. `None` leaves it to the latest upstream release.
pub open spec fn explicit_version_of(cli: Option<Seq<char>>, configured: Seq<char>) -> Option<
    Seq<char>,
> {
    match cli {
        Some(v) if trim(v).len() > 0 => Some(v),
        _ => if trim(configured).len() > 0 {
            Some(configured)
        } else {
            None
        },
    }
}

/// The version named by the command line or the config, if either does.
pub fn explicit_version(cli: Option<String>, configured: &str) -> (r: Option<String>)
    ensures
        match r {
            Some(v) => explicit_version_of(crate::text::opt_view(cli), configured@) == Some(v@),
            None => explicit_version_of(crate::text::opt_view(cli), configured@) is None,
        },
{
    match cli {
        Some(v) => {
            let cv = chars_of(v.as_str());
            if trim_slice(cv.as_slice()).len() > 0 {
                return Some(v);
            }
        },
        None => {},
    }
    let c = chars_of(configured);
    if trim_slice(c.as_slice()).len() > 0 {
        Some(configured.to_string())
    } else {
        None
    }
}

/// The build system named by the config: `custom` as such, the effective
/// name when `build_system:` is set, nothing when it is left to detection.
pub open spec fn build_system_choice_of(effective: Seq<char>, configured: Seq<char>) -> Option<
    Seq<char>,
> {
    if effective == "custom"@ {
        Some("custom"@)
    } else if trim(configured).len() > 0 {
        Some(effective)
    } else {
        None
    }
}

/// Which build system the config asks for; `None` means detect it from the
/// fetched source tree.
pub fn build_system_choice(effective: &str, configured: &str) -> (r: Option<String>)
    ensures
        match r {
            Some(b) => build_system_choice_of(effective@, configured@) == Some(b@),
            None => build_system_choice_of(effective@, configured@) is None,
        },
{
    let custom = "custom";
    proof {
        reveal_strlit("custom");
    }
    if crate::text::seq_eq(chars_of(effective).as_slice(), chars_of(custom).as_slice()) {
        return Some(custom.to_string());
    }
    let c = chars_of(configured);
    if trim_slice(c.as_slice()).len() > 0 {
        Some(effective.to_string())
    } else {
        None
    }
}

/// The upstream ref to fetch: `upstream_ref:` trimmed when set, else the
/// version.
pub open spec fn source_ref_of(upstream_ref: Seq<char>, version: Seq<char>) -> Seq<char> {
    if trim(upstream_ref).len() > 0 {
        trim(upstream_ref)
    } else {
        version
    }
}

/// The upstream ref to fetch.
pub fn source_ref(upstream_ref: &str, version: &str) -> (r: String)
    ensures
        r@ == source_ref_of(upstream_ref@, version@),
{
    let u = chars_of(upstream_ref);
    let t = trim_slice(u.as_slice());
    if t.len() > 0 {
        string_of(t)
    } else {
        version.to_string()
    }
}

/// The source tarball's URL: GitHub's tag archive for the repository, or
/// `<upstream_url>/archive/<ref>.tar.gz` (trailing slashes dropped) when
/// `upstream_url:` is set.
pub open spec fn source_tarball_url_of(
    github_repo: Seq<char>,
    upstream_url: Seq<char>,
    reference: Seq<char>,
) -> Seq<char> {
    if trim(upstream_url).len() == 0 {
        "https://github.com/"@ + github_repo + "/archive/refs/tags/"@ + reference + ".tar.gz"@
    } else {
        strip_suffix_all(upstream_url, "/"@) + "/archive/"@ + reference + ".tar.gz"@
    }
}

/// Where the source tarball of `reference` is downloaded from.
pub fn source_tarball_url(github_repo: &str, upstream_url: &str, reference: &str) -> (r: String)
    ensures
        r@ == source_tarball_url_of(github_repo@, upstream_url@, reference@),
{
    let u = chars_of(upstream_url);
    if trim_slice(u.as_slice()).len() == 0 {
        let mut s = String::from_str("https://github.com/");
        s.append(github_repo);
        s.append("/archive/refs/tags/");
        s.append(reference);
        s.append(".tar.gz");
        s
    } else {
        let slash = chars_of("/");
        let base = strip_suffix_all_exec(u.as_slice(), slash.as_slice());
        let mut s = string_of(base);
        s.append("/archive/");
        s.append(reference);
        s.append(".tar.gz");
        s
    }
}

/// The `Depends` of a source build. With owning packages found for the
/// staged binaries' libraries: those, sorted, without duplicates, joined by
/// `, `. Without any: nothing for a musl-static build, else the config's
/// `depends:` (trimmed) when set, else the C runtime (`libc6` for deb,
/// `glibc` otherwise).
pub open spec fn depends_from_owners_of(
    owners: Seq<Seq<char>>,
    musl: bool,
    declared: Seq<char>,
    format: Seq<char>,
) -> Seq<char> {
    if owners.len() == 0 {
        if musl {
            Seq::empty()
        } else if trim(declared).len() > 0 {
            trim(declared)
        } else if format == "deb"@ {
            "libc6"@
        } else {
            "glibc"@
        }
    } else {
        join(sorted_set(owners), ", "@)
    }
}

/// Computes the `Depends` of a source build from the packages owning the
/// staged binaries' libraries.
pub fn depends_from_owners(owners: &Vec<String>, musl: bool, declared: &str, format: &str) -> (r:
    String)
    ensures
        r@ == depends_from_owners_of(owners.deep_view(), musl, declared@, format@),
{
    if owners.len() == 0 {
        if musl {
            return String::new();
        }
        let d = chars_of(declared);
        let t = trim_slice(d.as_slice());
        if t.len() > 0 {
            return string_of(t);
        }
        let deb = "deb";
        proof {
            reveal_strlit("deb");
        }
        if crate::text::seq_eq(chars_of(format).as_slice(), chars_of(deb).as_slice()) {
            return "libc6".to_string();
        }
        return "glibc".to_string();
    }
    let set = sorted_set_exec(owners);
    let mut parts: Vec<Vec<char>> = Vec::new();
    let mut i: usize = 0;
    while i < set.len()
        invariant
            i <= set.len(),
            parts.deep_view() == set.deep_view().take(i as int),
        decreases set.len() - i,
    {
        let ghost before = parts.deep_view();
        let c = chars_of(set[i].as_str());
        let ghost cv = c@;
        assert(cv == set.deep_view()[i as int]);
        assert(c.deep_view() =~= cv);
        parts.push(c);
        assert(parts.deep_view() =~= before.push(cv));
        assert(set.deep_view().take(i + 1) =~= set.deep_view().take(i as int).push(
            set.deep_view()[i as int],
        ));
        i = i + 1;
    }
    assert(set.deep_view().take(set.len() as int) =~= set.deep_view());
    let sep = chars_of(", ");
    let j = join_exec(&parts, sep.as_slice());
    string_of(j.as_slice())
}

} // verus!
