//! Supply-chain attestations: the names and identifiers of the SPDX SBOM
//! and the SLSA provenance written per build, and the document-level
//! verification code over the artifacts' digests. Writing the JSON files
//! stays outside.
use vstd::prelude::*;

use crate::digests::{hex_lower, sha256_digest, sha256_hex};
use crate::sorted::{sort_texts, sorted_texts};
use crate::text::{chars_of, string_of};

verus! {

/// One built artifact with its digest.
#[derive(Debug, Clone)]
pub struct Artifact {
    pub filename: String,
    pub sha256: String,
    pub size: u64,
}

/// One upstream input with its digest (`None`: unverified).
#[derive(Debug, Clone)]
pub struct Material {
    pub uri: String,
    pub digest: Option<String>,
}

/// Whether `char::is_alphanumeric` holds of `c` (Unicode's alphabetic or
/// numeric property).
pub uninterp spec fn unicode_alphanumeric(c: char) -> bool;

/// `char::is_alphanumeric`. Its documentation defines it as alphabetic or
/// numeric in Unicode's sense; on ASCII that is exactly the letters and
/// digits, which the contract states. Beyond ASCII the result is only
/// named.
#[verifier::external_body]
fn is_alphanumeric(c: char) -> (r: bool)
    ensures
        r == unicode_alphanumeric(c),
        (c as u32) < 128 ==> r == crate::text::is_ascii_alnum(c),
{
    c.is_alphanumeric()
}

/// `s` with every char that is not alphanumeric replaced by `-`.
pub open spec fn sanitized(s: Seq<char>) -> Seq<char> {
    s.map_values(|c: char| if unicode_alphanumeric(c) { c } else { '-' })
}

/// Makes `s` usable inside an SPDX identifier.
pub fn sanitize(s: &str) -> (r: String)
    ensures
        r@ == sanitized(s@),
{
    let v = chars_of(s);
    let mut out: Vec<char> = Vec::new();
    let mut i: usize = 0;
    while i < v.len()
        invariant
            i <= v.len(),
            v@ == s@,
            out@ == sanitized(v@.take(i as int)),
        decreases v.len() - i,
    {
        let c = v[i];
        if is_alphanumeric(c) {
            out.push(c);
        } else {
            out.push('-');
        }
        assert(out@ =~= sanitized(v@.take(i + 1)));
        i = i + 1;
    }
    assert(v@.take(v.len() as int) =~= v@);
    string_of(out.as_slice())
}

/// The file stem of a build's attestations: `<pkg>_<version>-<build>`.
pub fn sbom_stem(package: &str, version: &str, build_version: &str) -> (r: String)
    ensures
        r@ == package@ + "_"@ + version@ + "-"@ + build_version@,
{
    let mut s = package.to_string();
    s.append("_");
    s.append(version);
    s.append("-");
    s.append(build_version);
    s
}

/// The two attestation files of a stem: the SPDX SBOM and the SLSA
/// provenance.
pub fn attestation_file_names(stem: &str) -> (r: (String, String))
    ensures
        r.0@ == stem@ + ".spdx.json"@,
        r.1@ == stem@ + ".slsa.json"@,
{
    let mut spdx = stem.to_string();
    spdx.append(".spdx.json");
    let mut slsa = stem.to_string();
    slsa.append(".slsa.json");
    (spdx, slsa)
}

/// The SPDX identifier of a built artifact.
pub fn artifact_spdx_id(filename: &str) -> (r: String)
    ensures
        r@ == "SPDXRef-Artifact-"@ + sanitized(filename@),
{
    let mut s = String::from_str("SPDXRef-Artifact-");
    s.append(sanitize(filename).as_str());
    s
}

/// The SPDX identifier of an upstream material.
pub fn material_spdx_id(uri: &str) -> (r: String)
    ensures
        r@ == "SPDXRef-Material-"@ + sanitized(uri@),
{
    let mut s = String::from_str("SPDXRef-Material-");
    s.append(sanitize(uri).as_str());
    s
}

/// The SBOM's document namespace for a stem.
pub fn document_namespace(stem: &str) -> (r: String)
    ensures
        r@ == "https://latest-debs.org/sbom/"@ + stem@,
{
    let mut s = String::from_str("https://latest-debs.org/sbom/");
    s.append(stem);
    s
}

/// The UTF-8 bytes of the strings, one after another.
pub open spec fn utf8_concat(s: Seq<Seq<char>>) -> Seq<u8>
    decreases s.len(),
{
    if s.len() == 0 {
        Seq::empty()
    } else {
        utf8_concat(s.drop_last()) + vstd::utf8::encode_utf8(s.last())
    }
}

/// The artifacts' digests, in order.
pub open spec fn digests_of(artifacts: Seq<Artifact>) -> Seq<Seq<char>> {
    artifacts.map_values(|a: Artifact| a.sha256@)
}

/// The document-level verification code: SHA-256, in lower-case hex, over
/// the artifacts' digests sorted and concatenated.
pub open spec fn artifacts_digest_of(artifacts: Seq<Artifact>) -> Seq<char> {
    hex_lower(sha256_digest(utf8_concat(sorted_texts(digests_of(artifacts)))))
}

/// Computes the document-level verification code of the artifacts.
pub fn artifacts_digest(artifacts: &Vec<Artifact>) -> (r: String)
    ensures
        r@ == artifacts_digest_of(artifacts@),
{
    let ghost ds = digests_of(artifacts@);
    let mut digests: Vec<String> = Vec::new();
    let mut i: usize = 0;
    while i < artifacts.len()
        invariant
            i <= artifacts.len(),
            ds == digests_of(artifacts@),
            digests.deep_view() == ds.take(i as int),
        decreases artifacts.len() - i,
    {
        let ghost before = digests.deep_view();
        let d = artifacts[i].sha256.clone();
        assert(d@ == ds[i as int]);
        digests.push(d);
        assert(digests.deep_view() =~= before.push(ds[i as int]));
        assert(ds.take(i + 1) =~= ds.take(i as int).push(ds[i as int]));
        i = i + 1;
    }
    assert(ds.take(artifacts.len() as int) =~= ds);
    let sorted = sort_texts(&digests);
    let ghost ss = sorted.deep_view();
    let mut bytes: Vec<u8> = Vec::new();
    let mut k: usize = 0;
    assert(ss.take(0) =~= Seq::<Seq<char>>::empty());
    while k < sorted.len()
        invariant
            k <= sorted.len(),
            ss == sorted.deep_view(),
            bytes@ == utf8_concat(ss.take(k as int)),
        decreases sorted.len() - k,
    {
        assert(ss.take(k + 1).drop_last() =~= ss.take(k as int));
        assert(ss.take(k + 1).last() == sorted@[k as int]@);
        let b = sorted[k].as_str().as_bytes();
        let mut j: usize = 0;
        let ghost start = bytes@;
        while j < b.len()
            invariant
                j <= b.len(),
                bytes@ == start + b@.take(j as int),
            decreases b.len() - j,
        {
            bytes.push(b[j]);
            assert(bytes@ =~= start + b@.take(j + 1));
            j = j + 1;
        }
        assert(b@.take(b.len() as int) =~= b@);
        k = k + 1;
    }
    assert(ss.take(sorted.len() as int) =~= ss);
    sha256_hex(bytes.as_slice())
}

/// Sanitizing keeps the length and leaves only alphanumeric characters and
/// `-`.
pub proof fn lemma_sanitized_shape(s: Seq<char>)
    ensures
        sanitized(s).len() == s.len(),
        forall|i: int|
            0 <= i < s.len() ==> unicode_alphanumeric(#[trigger] sanitized(s)[i]) || sanitized(s)[i]
                == '-',
{
}

/// The extension of a file name as `Path::extension` reads it: the text
/// after the last `.`, unless that `.` starts the name or there is none.
pub open spec fn path_extension(name: Seq<char>) -> Option<Seq<char>> {
    let k = crate::text::rfind_str(name, "."@);
    if k <= 0 {
        None
    } else {
        Some(name.skip(k + 1))
    }
}

/// The built files the attestations cover: `.deb`, `.rpm` and `.dsc`.
pub fn is_artifact_name(name: &str) -> (r: bool)
    ensures
        r == (path_extension(name@) matches Some(e) && (e == "deb"@ || e == "rpm"@ || e == "dsc"@)),
{
    let v = chars_of(name);
    let dot = chars_of(".");
    proof {
        reveal_strlit(".");
    }
    assert(dot@.len() == 1);
    match crate::text::rfind_exec(v.as_slice(), dot.as_slice()) {
        Some(k) => {
            if k == 0 {
                return false;
            }
            let n = v.len();
            let e = vstd::slice::slice_subrange(v.as_slice(), k + 1, n);
            assert(e@ =~= name@.skip(k + 1));
            crate::text::seq_eq(e, chars_of("deb").as_slice()) || crate::text::seq_eq(e, chars_of("rpm").as_slice())
                || crate::text::seq_eq(e, chars_of("dsc").as_slice())
        },
        None => false,
    }
}

/// The order the artifacts are listed in: by file name, ties in the given
/// order.
pub fn artifact_order(artifacts: &Vec<Artifact>) -> (r: Vec<usize>)
    ensures
        crate::search::listing_order(
            crate::search::keys_of(
                Seq::new(artifacts@.len(), |i: int| false),
                artifacts@.map_values(|a: Artifact| a.filename@),
            ),
            r@,
        ),
{
    let mut exact: Vec<bool> = Vec::new();
    let mut names: Vec<Vec<char>> = Vec::new();
    let mut i: usize = 0;
    while i < artifacts.len()
        invariant
            i <= artifacts@.len(),
            exact@ == Seq::new(i as nat, |j: int| false),
            names.deep_view() == artifacts@.take(i as int).map_values(|a: Artifact| a.filename@),
        decreases artifacts@.len() - i,
    {
        let n = chars_of(artifacts[i].filename.as_str());
        let ghost nv = n@;
        assert(n.deep_view() =~= nv);
        let ghost before = names.deep_view();
        exact.push(false);
        names.push(n);
        assert(names.deep_view() =~= before.push(nv));
        assert(artifacts@.take(i + 1).map_values(|a: Artifact| a.filename@) =~= artifacts@.take(i as int).map_values(
            |a: Artifact| a.filename@,
        ).push(nv));
        assert(exact@ =~= Seq::new((i + 1) as nat, |j: int| false));
        i = i + 1;
    }
    assert(artifacts@.take(artifacts@.len() as int) =~= artifacts@);
    crate::search::key_order(&exact, &names)
}

} // verus!
