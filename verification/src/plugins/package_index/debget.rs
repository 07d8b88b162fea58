//! The `deb-get` catalog as a read index backend: which release asset or
//! scraped link fits the host architecture, the version a `.deb` file name
//! carries, and how an armored repository key becomes keyring bytes. The
//! downloads and the privileged installs stay outside.
use vstd::prelude::*;

use base64::Engine;

use crate::plugins::plugin::Plugin;
use crate::release::Asset;
use crate::sorted::{sorted_unique, strictly_sorted};
use crate::text::{
    chars_of, contains_exec, contains_str, ends_with, ends_with_exec, find_exec, find_str, join,
    join_exec, lines,
    lines_exec, lower_vec, seq_eq, split_class, split_class_exec, starts_with, starts_with_exec,
    string_of, to_lower, trim, trim_slice,
};

verus! {

/// A read backend over a deb-get catalog directory.
pub struct DebGetSource {
    pub name: String,
    pub root: String,
}

impl DebGetSource {
    /// The built-in catalog, found by the caller at `default_root`.
    pub fn new(name: &str, default_root: String) -> (s: Self)
        ensures
            s.name@ == name@,
            s.root@ == default_root@,
    {
        Self::with_root(name, default_root)
    }

    /// A catalog at an explicit root (used by tests and `custom` catalogs).
    pub fn with_root(name: &str, root: String) -> (s: Self)
        ensures
            s.name@ == name@,
            s.root@ == root@,
    {
        DebGetSource { name: String::from_str(name), root }
    }

    /// The configured instance label.
    pub fn instance_name(&self) -> (r: &str)
        ensures
            r@ == self.name@,
    {
        self.name.as_str()
    }
}

impl Plugin for DebGetSource {
    open spec fn spec_name(&self) -> Seq<char> {
        "debget"@
    }

    fn name(&self) -> (r: &'static str) {
        "debget"
    }

    open spec fn spec_description(&self) -> Seq<char> {
        "deb-get catalog (apt/PPA/GitHub/GitLab/direct .debs)"@
    }

    fn description(&self) -> (r: &'static str) {
        "deb-get catalog (apt/PPA/GitHub/GitLab/direct .debs)"
    }
}

// ---------------------------------------------------------------------------
// Architecture matching
// ---------------------------------------------------------------------------

/// The file-name spellings that mark a Debian architecture; `None` for an
/// architecture matched by its own name only.
pub open spec fn arch_aliases(arch: Seq<char>) -> Option<Seq<Seq<char>>> {
    if arch == "amd64"@ {
        Some(seq!["amd64"@, "x86_64"@, "x64"@])
    } else if arch == "arm64"@ {
        Some(seq!["arm64"@, "aarch64"@])
    } else if arch == "armhf"@ {
        Some(seq!["armhf"@, "armv7"@])
    } else if arch == "i386"@ {
        Some(seq!["i386"@, "386"@])
    } else {
        None
    }
}

/// A `.deb` file name (lower-cased) mentions one spelling of `arch`.
pub open spec fn deb_matches(name: Seq<char>, arch: Seq<char>) -> bool {
    let n = to_lower(name);
    match arch_aliases(arch) {
        Some(al) => exists|k: int| 0 <= k < al.len() && contains_str(n, #[trigger] al[k]),
        None => contains_str(n, arch),
    }
}

/// Whether the lower-cased name contains any of `al`.
fn contains_any(n: &[char], al: &Vec<&'static str>) -> (r: bool)
    ensures
        r == exists|k: int| 0 <= k < al@.len() && contains_str(n@, #[trigger] al.deep_view()[k]),
{
    let mut i: usize = 0;
    while i < al.len()
        invariant
            i <= al@.len(),
            forall|k: int| 0 <= k < i ==> !contains_str(n@, #[trigger] al.deep_view()[k]),
        decreases al@.len() - i,
    {
        if contains_exec(n, chars_of(al[i]).as_slice()) {
            assert(contains_str(n@, al.deep_view()[i as int]));
            return true;
        }
        i = i + 1;
    }
    false
}

/// True when a `.deb` filename looks like it targets `arch`.
pub fn deb_matches_arch(name: &str, arch: &str) -> (r: bool)
    ensures
        r == deb_matches(name@, arch@),
{
    let n = lower_vec(chars_of(name).as_slice());
    let a = chars_of(arch);
    let al: Vec<&'static str> = if seq_eq(a.as_slice(), chars_of("amd64").as_slice()) {
        vec!["amd64", "x86_64", "x64"]
    } else if seq_eq(a.as_slice(), chars_of("arm64").as_slice()) {
        vec!["arm64", "aarch64"]
    } else if seq_eq(a.as_slice(), chars_of("armhf").as_slice()) {
        vec!["armhf", "armv7"]
    } else if seq_eq(a.as_slice(), chars_of("i386").as_slice()) {
        vec!["i386", "386"]
    } else {
        return contains_exec(n.as_slice(), a.as_slice());
    };
    let ghost spec_al = arch_aliases(arch@).unwrap();
    assert(al.deep_view() =~= spec_al);
    let r = contains_any(n.as_slice(), &al);
    proof {
        if r {
            let k = choose|k: int| 0 <= k < al@.len() && contains_str(n@, #[trigger] al.deep_view()[k]);
            assert(contains_str(to_lower(name@), spec_al[k]));
        }
    }
    r
}

/// An asset is a `.deb` for `arch`.
pub open spec fn deb_asset_fits(name: Seq<char>, arch: Seq<char>) -> bool {
    ends_with(name, ".deb"@) && deb_matches(name, arch)
}

/// The first `.deb` asset whose name matches `arch`.
pub fn pick_deb_asset<'a>(assets: &'a [Asset], arch: &str) -> (r: Option<&'a Asset>)
    ensures
        match r {
            Some(a) => exists|k: int|
                0 <= k < assets@.len() && assets@[k] == *a && deb_asset_fits(a.name@, arch@)
                    && forall|j: int|
                    0 <= j < k ==> !deb_asset_fits(#[trigger] assets@[j].name@, arch@),
            None => forall|j: int|
                0 <= j < assets@.len() ==> !deb_asset_fits(#[trigger] assets@[j].name@, arch@),
        },
{
    let dot_deb = chars_of(".deb");
    let mut i: usize = 0;
    while i < assets.len()
        invariant
            i <= assets@.len(),
            dot_deb@ == ".deb"@,
            forall|j: int| 0 <= j < i ==> !deb_asset_fits(#[trigger] assets@[j].name@, arch@),
        decreases assets@.len() - i,
    {
        let a = &assets[i];
        if ends_with_exec(chars_of(a.name.as_str()).as_slice(), dot_deb.as_slice())
            && deb_matches_arch(a.name.as_str(), arch) {
            return Some(a);
        }
        i = i + 1;
    }
    None
}

// ---------------------------------------------------------------------------
// File names and scraped links
// ---------------------------------------------------------------------------

/// The version field of a `.deb` file name (`name_1.2.3-1_amd64.deb`): the
/// second `_`-separated field of the name without `.deb`.
pub open spec fn version_in_name(filename: Seq<char>) -> Option<Seq<char>> {
    if !ends_with(filename, ".deb"@) {
        None
    } else {
        let parts = split_class(filename.take(filename.len() - 4), false, seq!['_']);
        if parts.len() >= 2 {
            Some(parts[1])
        } else {
            None
        }
    }
}

/// Best-effort version from a `.deb` filename.
pub fn version_from_name(filename: &str) -> (r: Option<String>)
    ensures
        match r {
            Some(v) => version_in_name(filename@) == Some(v@),
            None => version_in_name(filename@) is None,
        },
{
    let f = chars_of(filename);
    let dot_deb = chars_of(".deb");
    proof {
        reveal_strlit(".deb");
    }
    if !ends_with_exec(f.as_slice(), dot_deb.as_slice()) {
        return None;
    }
    let stem = vstd::slice::slice_subrange(f.as_slice(), 0, f.len() - 4);
    let underscore: Vec<char> = vec!['_'];
    assert(underscore@ =~= seq!['_']);
    let parts = split_class_exec(stem, false, underscore.as_slice());
    if parts.len() >= 2 {
        assert(parts.deep_view()[1] == parts@[1]@);
        Some(string_of(parts[1].as_slice()))
    } else {
        None
    }
}

/// The matches of `pattern` in `text`, in order, as the `regex` crate finds
/// them; `None` when the pattern does not compile.
pub uninterp spec fn regex_matches_of(pattern: Seq<char>, text: Seq<char>) -> Option<
    Seq<Seq<char>>,
>;

/// `regex::Regex::new(pattern)` then `find_iter(text)`, each match's text.
/// The contract ties the result to `regex_matches_of` and claims nothing of
/// its values.
#[verifier::external_body]
pub(crate) fn regex_find_all(pattern: &str, text: &str) -> (r: Option<Vec<String>>)
    ensures
        match r {
            Some(v) => regex_matches_of(pattern@, text@) == Some(v.deep_view()),
            None => regex_matches_of(pattern@, text@) is None,
        },
{
    regex::Regex::new(pattern).ok().map(|re| re.find_iter(text).map(|m| m.as_str().to_string()).collect())
}

/// The pattern of a `.deb` link in a web page.
pub open spec fn deb_link_pattern() -> Seq<char> {
    "https?://[^\"'\\s<>]+\\.deb"@
}

/// Best-effort: pull `.deb` links out of an HTML page, sorted and without
/// duplicates.
pub fn scrape_deb_links(html: &str) -> (r: Vec<String>)
    ensures
        strictly_sorted(r.deep_view()),
        match regex_matches_of(deb_link_pattern(), html@) {
            Some(ms) => r.deep_view().to_set() == ms.to_set(),
            None => r.len() == 0,
        },
{
    match regex_find_all("https?://[^\"'\\s<>]+\\.deb", html) {
        Some(ms) => sorted_unique(&ms),
        None => Vec::new(),
    }
}

// ---------------------------------------------------------------------------
// Armored keys
// ---------------------------------------------------------------------------

#[verifier::external_type_specification]
#[verifier::external_body]
pub struct ExDecodeError(base64::DecodeError);

/// The bytes standard base64 (with padding) decodes `s` to; `None` when it
/// is not valid base64.
pub uninterp spec fn base64_decoded(s: Seq<char>) -> Option<Seq<u8>>;

/// `base64::engine::general_purpose::STANDARD.decode(s)`. The contract ties
/// the result to `base64_decoded` and claims nothing of its values.
#[verifier::external_body]
fn base64_decode(s: &str) -> (r: Result<Vec<u8>, base64::DecodeError>)
    ensures
        match r {
            Ok(v) => base64_decoded(s@) == Some(v@),
            Err(_) => base64_decoded(s@) is None,
        },
{
    base64::engine::general_purpose::STANDARD.decode(s)
}

/// The text `String::from_utf8_lossy` reads from `bytes`.
pub uninterp spec fn utf8_lossy_of(bytes: Seq<u8>) -> Seq<char>;

/// `String::from_utf8_lossy(bytes)`, owned. The contract ties the result to
/// `utf8_lossy_of` and claims nothing of its values.
#[verifier::external_body]
fn utf8_lossy(bytes: &[u8]) -> (r: String)
    ensures
        r@ == utf8_lossy_of(bytes@),
{
    String::from_utf8_lossy(bytes).into_owned()
}

/// The trimmed body lines of an ASCII armor: the lines after a
/// `-----BEGIN PGP` line, up to the first `-----END PGP` line.
pub open spec fn armor_body(ls: Seq<Seq<char>>, in_body: bool) -> Seq<Seq<char>>
    decreases ls.len(),
{
    if ls.len() == 0 {
        seq![]
    } else if starts_with(ls[0], "-----BEGIN PGP"@) {
        armor_body(ls.drop_first(), true)
    } else if starts_with(ls[0], "-----END PGP"@) {
        seq![]
    } else if in_body {
        seq![trim(ls[0])] + armor_body(ls.drop_first(), true)
    } else {
        armor_body(ls.drop_first(), false)
    }
}

/// `owner/repo` split at its first `/`.
pub open spec fn owner_repo_of(repo: Seq<char>) -> Option<(Seq<char>, Seq<char>)> {
    let k = find_str(repo, "/"@);
    if k < 0 {
        None
    } else {
        Some((repo.take(k), repo.skip(k + 1)))
    }
}

/// Why a catalog entry names no forge repository to install from.
#[derive(Debug, PartialEq, Eq, Clone, Copy)]
pub enum ForgeRepoError {
    /// The entry has no `owner/repo`.
    NoOwnerRepo,
    /// The entry's repository has no `/`.
    NotOwnerRepo,
}

/// The owner and repository name of a forge-hosted entry: its
/// `owner/repo` split at the first `/`.
pub fn split_owner_repo(forge_repo: Option<&str>) -> (r: Result<(String, String), ForgeRepoError>)
    ensures
        match forge_repo {
            None => r == Err::<(String, String), ForgeRepoError>(ForgeRepoError::NoOwnerRepo),
            Some(repo) => match owner_repo_of(repo@) {
                None => r == Err::<(String, String), ForgeRepoError>(
                    ForgeRepoError::NotOwnerRepo,
                ),
                Some((o, n)) => r matches Ok((owner, name)) && owner@ == o && name@ == n,
            },
        },
{
    let repo = match forge_repo {
        Some(repo) => repo,
        None => return Err(ForgeRepoError::NoOwnerRepo),
    };
    let v = chars_of(repo);
    proof {
        reveal_strlit("/");
    }
    let n = v.len();
    let slash = chars_of("/");
    assert(slash@.len() == 1);
    match find_exec(v.as_slice(), slash.as_slice()) {
        Some(k) => {
            assert(k < n);
            let owner = vstd::slice::slice_subrange(v.as_slice(), 0, k);
            let name = vstd::slice::slice_subrange(v.as_slice(), k + 1, n);
            assert(owner@ =~= v@.take(k as int));
            assert(name@ =~= v@.skip(k + 1));
            Ok((string_of(owner), string_of(name)))
        },
        None => Err(ForgeRepoError::NotOwnerRepo),
    }
}

/// Why an armored key could not be dearmored.
#[derive(Debug, PartialEq, Eq, Clone, Copy)]
pub enum DearmorError {
    /// No armored body was found.
    NoArmor,
    /// The body is not valid base64.
    InvalidBase64,
}

/// Dearmor an ASCII-armored PGP key into binary keyring bytes.
pub fn dearmor(asc: &[u8]) -> (r: Result<Vec<u8>, DearmorError>)
    ensures
        ({
            let body = armor_body(lines(utf8_lossy_of(asc@)), false);
            match r {
                Ok(v) => body.len() > 0 && base64_decoded(join(body, seq![])) == Some(v@),
                Err(DearmorError::NoArmor) => body.len() == 0,
                Err(DearmorError::InvalidBase64) => body.len() > 0 && base64_decoded(
                    join(body, seq![]),
                ) is None,
            }
        }),
{
    let text = utf8_lossy(asc);
    let t = chars_of(text.as_str());
    let ls = lines_exec(t.as_slice());
    let ghost all = ls.deep_view();
    let begin = chars_of("-----BEGIN PGP");
    let end = chars_of("-----END PGP");
    let mut out: Vec<Vec<char>> = Vec::new();
    let mut in_body = false;
    let mut done = false;
    let mut i: usize = 0;
    assert(all.skip(0) =~= all);
    assert(out.deep_view() =~= Seq::<Seq<char>>::empty());
    while i < ls.len() && !done
        invariant
            i <= ls.len(),
            all == ls.deep_view(),
            begin@ == "-----BEGIN PGP"@,
            end@ == "-----END PGP"@,
            done ==> armor_body(all, false) == out.deep_view(),
            !done ==> armor_body(all, false) == out.deep_view() + armor_body(
                all.skip(i as int),
                in_body,
            ),
        decreases ls.len() - i,
    {
        assert(all[i as int] == ls@[i as int]@);
        assert(all.skip(i as int).drop_first() =~= all.skip(i + 1));
        assert(all.skip(i as int)[0] == all[i as int]);
        let line = ls[i].as_slice();
        if starts_with_exec(line, begin.as_slice()) {
            in_body = true;
        } else if starts_with_exec(line, end.as_slice()) {
            assert(out.deep_view() + Seq::<Seq<char>>::empty() =~= out.deep_view());
            done = true;
        } else if in_body {
            let ghost before = out.deep_view();
            let piece = crate::text::slice_to_vec(trim_slice(line));
            assert(piece.deep_view() =~= piece@);
            out.push(piece);
            assert(out.deep_view() =~= before.push(trim(all[i as int])));
            assert(before + (seq![trim(all[i as int])] + armor_body(all.skip(i + 1), true))
                =~= out.deep_view() + armor_body(all.skip(i + 1), true));
        }
        i = i + 1;
    }
    if !done {
        assert(all.skip(i as int) =~= Seq::<Seq<char>>::empty());
        assert(out.deep_view() + Seq::<Seq<char>>::empty() =~= out.deep_view());
    }
    if out.len() == 0 {
        return Err(DearmorError::NoArmor);
    }
    let empty: Vec<char> = Vec::new();
    assert(empty@ =~= Seq::<char>::empty());
    let joined = join_exec(&out, empty.as_slice());
    let s = string_of(joined.as_slice());
    match base64_decode(s.as_str()) {
        Ok(v) => Ok(v),
        Err(_) => Err(DearmorError::InvalidBase64),
    }
}

} // verus!
