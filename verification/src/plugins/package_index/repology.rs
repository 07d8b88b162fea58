//! The Repology backend: cross-distro package metadata. This module holds
//! the project records, the per-project summary, which host repository a
//! distro maps to and which projects lag upstream there. The API requests,
//! the JSON cache and the host probing stay outside.
use vstd::prelude::*;

use crate::plugins::package_index::{user_cache_dir, IndexHit, SearchError};
use crate::plugins::plugin::Plugin;
use crate::pattern::{regex_compiles, regex_compiles_of, regex_is_match, regex_is_match_of};
use crate::sorted::strictly_sorted;
use crate::text::{
    chars_of, first_starting_with, lines, lines_exec, seq_eq, starts_with, starts_with_exec,
    string_of, strip, strip_slice,
};

verus! {

/// One package entry as returned by repology's `/api/v1/project/{name}`.
#[derive(Debug, Clone)]
pub struct RepologyPackage {
    pub repo: String,
    pub srcname: Option<String>,
    pub binname: Option<String>,
    pub version: String,
    pub status: String,
    pub summary: Option<String>,
    pub categories: Option<Vec<String>>,
    pub licenses: Option<Vec<String>>,
    pub maintainers: Option<Vec<String>>,
}

/// A cached project: its packages and when it was last refreshed.
#[derive(Debug, Clone)]
pub struct RepologyProject {
    pub packages: Vec<RepologyPackage>,
    pub last_updated: u64,
}

/// A configured Repology source and its cache directory.
pub struct RepologySource {
    pub name: String,
    pub cache: String,
}

/// The cache directory under a base directory (`/tmp` when there is none).
pub open spec fn cache_under(base: Option<Seq<char>>) -> Seq<char> {
    match base {
        Some(b) => b + "/lx/repology"@,
        None => "/tmp/lx/repology"@,
    }
}

/// How a per-project lookup is answered.
#[derive(Debug, Clone)]
pub enum Lookup {
    /// From the cache.
    Cached(RepologyProject),
    /// Not cached: ask the API.
    FetchFromApi,
}

impl RepologySource {
    /// A source caching under the user's cache directory.
    pub fn new(name: &str) -> (s: Self)
        ensures
            s.name@ == name@,
            exists|base: Option<Seq<char>>| s.cache@ == cache_under(base),
    {
        let base = user_cache_dir();
        let ghost b = crate::text::opt_view(base);
        let s = Self::with_cache_base(name, base);
        assert(s.cache@ == cache_under(b));
        s
    }

    /// A source caching under `base` (the cache directory found for this
    /// user, if any).
    pub fn with_cache_base(name: &str, base: Option<String>) -> (s: Self)
        ensures
            s.name@ == name@,
            s.cache@ == cache_under(
                match base {
                    Some(b) => Some(b@),
                    None => None,
                },
            ),
    {
        let cache = match base {
            Some(b) => {
                let mut c = b;
                c.append("/lx/repology");
                c
            },
            None => String::from_str("/tmp/lx/repology"),
        };
        RepologySource { name: String::from_str(name), cache }
    }

    /// The configured instance label.
    pub fn instance_name(&self) -> (r: &str)
        ensures
            r@ == self.name@,
    {
        self.name.as_str()
    }

    /// Whether the bulk cache needs refreshing, given its age in seconds
    /// (`None` when it is missing or its age is unknown): after a day.
    pub fn stale(age_secs: Option<u64>) -> (r: bool)
        ensures
            r == match age_secs {
                Some(s) => s / 3600 >= 24,
                None => true,
            },
    {
        match age_secs {
            Some(s) => s / 3600 >= 24,
            None => true,
        }
    }

    /// Look up a single project: a per-project cache hit is answered from
    /// the bulk cache's entry when there is one (it may carry summaries),
    /// else from the per-project entry; a miss goes to the API.
    pub fn lookup_project(per_project: Option<RepologyProject>, bulk: Option<RepologyProject>) -> (r:
        Lookup)
        ensures
            match per_project {
                Some(p) => match bulk {
                    Some(b) => r == Lookup::Cached(b),
                    None => r == Lookup::Cached(p),
                },
                None => r == Lookup::FetchFromApi,
            },
    {
        match per_project {
            Some(p) => match bulk {
                Some(b) => Lookup::Cached(b),
                None => Lookup::Cached(p),
            },
            None => Lookup::FetchFromApi,
        }
    }

    /// Summary of a project: the version of the first package at the newest
    /// version, the number of repositories, and how many are outdated and
    /// vulnerable.
    pub fn distro_summary(project: &RepologyProject) -> (r: (Option<String>, usize, usize, usize))
        ensures
            ({
                let st = statuses(project.packages@);
                &&& match r.0 {
                    Some(v) => {
                        let k = first_newest(st);
                        0 <= k < st.len() && v@ == project.packages@[k].version@
                    },
                    None => first_newest(st) == -1,
                }
                &&& r.1 == project.packages@.len()
                &&& r.2 == count_in(st, outdated_statuses())
                &&& r.3 == count_in(st, seq!["vulnerable"@])
            }),
    {
        let ghost st = statuses(project.packages@);
        let mut newest: Option<String> = None;
        let mut repos: usize = 0;
        let mut outdated: usize = 0;
        let mut vulnerable: usize = 0;
        let mut i: usize = 0;
        assert(st.take(0) =~= Seq::<Seq<char>>::empty());
        while i < project.packages.len()
            invariant
                i <= project.packages@.len(),
                st == statuses(project.packages@),
                repos == i,
                outdated == count_in(st.take(i as int), outdated_statuses()),
                vulnerable == count_in(st.take(i as int), seq!["vulnerable"@]),
                outdated + vulnerable <= i,
                match newest {
                    Some(v) => {
                        let k = first_newest(st.take(i as int));
                        0 <= k < i && v@ == project.packages@[k].version@
                    },
                    None => first_newest(st.take(i as int)) == -1,
                },
            decreases project.packages@.len() - i,
        {
            let pkg = &project.packages[i];
            assert(st[i as int] == pkg.status@);
            assert(st.take(i + 1).drop_last() =~= st.take(i as int));
            proof {
                lemma_first_newest_push(st.take(i as int), st[i as int]);
                assert(st.take(i + 1) =~= st.take(i as int).push(st[i as int]));
            }
            repos = repos + 1;
            let s = chars_of(pkg.status.as_str());
            if is_one_of(s.as_slice(), &newest_status_list()) {
                if newest.is_none() {
                    newest = Some(pkg.version.clone());
                }
            } else if is_one_of(s.as_slice(), &outdated_status_list()) {
                outdated = outdated + 1;
            } else if seq_eq(s.as_slice(), chars_of("vulnerable").as_slice()) {
                vulnerable = vulnerable + 1;
            }
            proof {
                lemma_status_sets_disjoint(st[i as int]);
                assert(st.take(i + 1).last() == st[i as int]);
                let v = seq!["vulnerable"@];
                if st[i as int] == "vulnerable"@ {
                    assert(v[0] == st[i as int]);
                }
                if v.contains(st[i as int]) {
                    let j = choose|j: int| 0 <= j < 1 && v[j] == st[i as int];
                    assert(j == 0);
                }
            }
            i = i + 1;
        }
        assert(st.take(st.len() as int) =~= st);
        (newest, repos, outdated, vulnerable)
    }

    /// The host repository's version and status of a project, if tracked
    /// there (`None` as well when the host repository is unknown).
    pub fn host_version(project: &RepologyProject, host_repo: Option<&str>) -> (r: Option<
        (String, String),
    >)
        ensures
            match host_repo {
                None => r is None,
                Some(h) => {
                    let k = first_in_repo(project.packages@, h@);
                    match r {
                        Some((v, s)) => 0 <= k < project.packages@.len() && v@
                            == project.packages@[k].version@ && s@
                            == project.packages@[k].status@,
                        None => k == -1,
                    }
                },
            },
    {
        let h = match host_repo {
            Some(h) => h,
            None => return None,
        };
        match find_in_repo(&project.packages, h) {
            Some(k) => Some((project.packages[k].version.clone(), project.packages[k].status.clone())),
            None => None,
        }
    }

    /// The projects the host repository ships outdated: `(name, host
    /// version, newest version)` for each project (in name order) whose
    /// host package is `outdated`/`legacy` at a version other than the
    /// first `newest`/`devel` package's. Nothing when the host repository is
    /// unknown.
    pub fn count_outdated(projects: &Vec<(String, RepologyProject)>, host_repo: Option<&str>) -> (r:
        Vec<(String, String, String)>)
        requires
            strictly_sorted(projects@.map_values(|p: (String, RepologyProject)| p.0@)),
        ensures
            match host_repo {
                None => r@.len() == 0,
                Some(h) => outdated_view(r@) == outdated_rows(projects@, h@),
            },
    {
        let h = match host_repo {
            Some(h) => h,
            None => return Vec::new(),
        };
        let mut out: Vec<(String, String, String)> = Vec::new();
        let mut i: usize = 0;
        assert(projects@.take(0) =~= Seq::<(String, RepologyProject)>::empty());
        while i < projects.len()
            invariant
                i <= projects@.len(),
                outdated_view(out@) == outdated_rows(projects@.take(i as int), h@),
            decreases projects@.len() - i,
        {
            assert(projects@.take(i + 1).drop_last() =~= projects@.take(i as int));
            let (name, project) = (&projects[i].0, &projects[i].1);
            let host = find_in_repo(&project.packages, h);
            let newest = find_newest_or_devel(&project.packages);
            let ghost before = out@;
            match (host, newest) {
                (Some(hk), Some(nk)) => {
                    let hp = &project.packages[hk];
                    let np = &project.packages[nk];
                    let hs = chars_of(hp.status.as_str());
                    if (seq_eq(hs.as_slice(), chars_of("outdated").as_slice()) || seq_eq(
                        hs.as_slice(),
                        chars_of("legacy").as_slice(),
                    )) && hp.version != np.version {
                        out.push((name.clone(), hp.version.clone(), np.version.clone()));
                        assert(outdated_view(out@) =~= outdated_view(before).push(
                            (name@, hp.version@, np.version@),
                        ));
                    }
                },
                _ => {},
            }
            i = i + 1;
        }
        assert(projects@.take(projects@.len() as int) =~= projects@);
        out
    }
}

impl Plugin for RepologySource {
    open spec fn spec_name(&self) -> Seq<char> {
        "repology"@
    }

    fn name(&self) -> (r: &'static str) {
        "repology"
    }

    open spec fn spec_description(&self) -> Seq<char> {
        "Repology cross-distro metadata (read-only)"@
    }

    fn description(&self) -> (r: &'static str) {
        "Repology cross-distro metadata (read-only)"
    }
}

// ---------------------------------------------------------------------------
// What the summaries count
// ---------------------------------------------------------------------------

/// The statuses of the packages, in order.
pub open spec fn statuses(ps: Seq<RepologyPackage>) -> Seq<Seq<char>> {
    ps.map_values(|p: RepologyPackage| p.status@)
}

/// Statuses that mark a package at the newest version.
pub open spec fn newest_statuses() -> Seq<Seq<char>> {
    seq!["newest"@, "devel"@, "unique"@, "rolling"@]
}

/// Statuses that mark a package behind upstream.
pub open spec fn outdated_statuses() -> Seq<Seq<char>> {
    seq!["outdated"@, "legacy"@]
}

/// How many of `st` are among `set`.
pub open spec fn count_in(st: Seq<Seq<char>>, set: Seq<Seq<char>>) -> nat
    decreases st.len(),
{
    if st.len() == 0 {
        0
    } else {
        count_in(st.drop_last(), set) + if set.contains(st.last()) {
            1nat
        } else {
            0nat
        }
    }
}

/// Index of the first newest-version status, or -1.
pub open spec fn first_newest(st: Seq<Seq<char>>) -> int
    decreases st.len(),
{
    if st.len() == 0 {
        -1
    } else {
        let k = first_newest(st.drop_last());
        if k >= 0 {
            k
        } else if newest_statuses().contains(st.last()) {
            st.len() - 1
        } else {
            -1
        }
    }
}

proof fn lemma_status_sets_disjoint(s: Seq<char>)
    ensures
        newest_statuses().contains(s) ==> !outdated_statuses().contains(s) && !seq![
            "vulnerable"@,
        ].contains(s),
        outdated_statuses().contains(s) ==> !seq!["vulnerable"@].contains(s),
{
    reveal_strlit("vulnerable");
    reveal_strlit("outdated");
    reveal_strlit("legacy");
    reveal_strlit("newest");
    reveal_strlit("devel");
    reveal_strlit("unique");
    reveal_strlit("rolling");
    let v = seq!["vulnerable"@];
    if newest_statuses().contains(s) {
        let a = choose|a: int| 0 <= a < 4 && newest_statuses()[a] == s;
        assert(s[0] == 'n' || s[0] == 'd' || s[0] == 'u' || s[0] == 'r');
        if outdated_statuses().contains(s) {
            let b = choose|b: int| 0 <= b < 2 && outdated_statuses()[b] == s;
            assert(s[0] == 'o' || s[0] == 'l');
        }
        if v.contains(s) {
            assert(v[0] == s);
            assert(s[0] == 'v');
        }
    }
    if outdated_statuses().contains(s) {
        let b = choose|b: int| 0 <= b < 2 && outdated_statuses()[b] == s;
        assert(s[0] == 'o' || s[0] == 'l');
        if v.contains(s) {
            assert(v[0] == s);
            assert(s[0] == 'v');
        }
    }
}

proof fn lemma_first_newest_push(st: Seq<Seq<char>>, s: Seq<char>)
    ensures
        first_newest(st.push(s)) == (if first_newest(st) >= 0 {
            first_newest(st)
        } else if newest_statuses().contains(s) {
            st.len() as int
        } else {
            -1
        }),
        first_newest(st) < st.len(),
    decreases st.len(),
{
    assert(st.push(s).drop_last() =~= st);
    if st.len() > 0 {
        lemma_first_newest_push(st.drop_last(), st.last());
        assert(st.drop_last().push(st.last()) =~= st);
    }
}

/// Index of the first package of repository `repo`, or -1.
pub open spec fn first_in_repo(ps: Seq<RepologyPackage>, repo: Seq<char>) -> int
    decreases ps.len(),
{
    if ps.len() == 0 {
        -1
    } else if ps[0].repo@ == repo {
        0
    } else {
        let k = first_in_repo(ps.drop_first(), repo);
        if k < 0 {
            -1
        } else {
            k + 1
        }
    }
}

/// Index of the first `newest` or `devel` package, or -1.
pub open spec fn first_newest_or_devel(ps: Seq<RepologyPackage>) -> int
    decreases ps.len(),
{
    if ps.len() == 0 {
        -1
    } else if ps[0].status@ == "newest"@ || ps[0].status@ == "devel"@ {
        0
    } else {
        let k = first_newest_or_devel(ps.drop_first());
        if k < 0 {
            -1
        } else {
            k + 1
        }
    }
}

/// The row a project contributes to `count_outdated`, if any.
pub open spec fn outdated_row(name: Seq<char>, p: RepologyProject, host: Seq<char>) -> Option<
    (Seq<char>, Seq<char>, Seq<char>),
> {
    let hk = first_in_repo(p.packages@, host);
    let nk = first_newest_or_devel(p.packages@);
    if hk < 0 || nk < 0 {
        None
    } else {
        let hp = p.packages@[hk];
        let np = p.packages@[nk];
        if (hp.status@ == "outdated"@ || hp.status@ == "legacy"@) && hp.version@ != np.version@ {
            Some((name, hp.version@, np.version@))
        } else {
            None
        }
    }
}

/// The rows of `count_outdated`, in project order.
pub open spec fn outdated_rows(ps: Seq<(String, RepologyProject)>, host: Seq<char>) -> Seq<
    (Seq<char>, Seq<char>, Seq<char>),
>
    decreases ps.len(),
{
    if ps.len() == 0 {
        seq![]
    } else {
        let r = outdated_rows(ps.drop_last(), host);
        match outdated_row(ps.last().0@, ps.last().1, host) {
            Some(row) => r.push(row),
            None => r,
        }
    }
}

/// The values of `count_outdated`'s rows.
pub open spec fn outdated_view(rows: Seq<(String, String, String)>) -> Seq<
    (Seq<char>, Seq<char>, Seq<char>),
> {
    rows.map_values(|t: (String, String, String)| (t.0@, t.1@, t.2@))
}

fn newest_status_list() -> (r: Vec<&'static str>)
    ensures
        r.deep_view() == newest_statuses(),
{
    let r = vec!["newest", "devel", "unique", "rolling"];
    assert(r.deep_view() =~= newest_statuses());
    r
}

fn outdated_status_list() -> (r: Vec<&'static str>)
    ensures
        r.deep_view() == outdated_statuses(),
{
    let r = vec!["outdated", "legacy"];
    assert(r.deep_view() =~= outdated_statuses());
    r
}

/// Whether `s` is one of `set`.
fn is_one_of(s: &[char], set: &Vec<&'static str>) -> (r: bool)
    ensures
        r == set.deep_view().contains(s@),
{
    let mut i: usize = 0;
    while i < set.len()
        invariant
            i <= set@.len(),
            forall|j: int| 0 <= j < i ==> set.deep_view()[j] != s@,
        decreases set@.len() - i,
    {
        if seq_eq(chars_of(set[i]).as_slice(), s) {
            assert(set.deep_view()[i as int] == s@);
            return true;
        }
        i = i + 1;
    }
    false
}

fn find_in_repo(ps: &Vec<RepologyPackage>, repo: &str) -> (r: Option<usize>)
    ensures
        match r {
            Some(k) => k < ps@.len() && first_in_repo(ps@, repo@) == k,
            None => first_in_repo(ps@, repo@) == -1,
        },
{
    let want = chars_of(repo);
    let mut i: usize = 0;
    while i < ps.len()
        invariant
            i <= ps@.len(),
            want@ == repo@,
            forall|j: int| 0 <= j < i ==> (#[trigger] ps@[j]).repo@ != repo@,
        decreases ps@.len() - i,
    {
        if seq_eq(chars_of(ps[i].repo.as_str()).as_slice(), want.as_slice()) {
            proof {
                lemma_first_in_repo(ps@, repo@, i as int);
            }
            return Some(i);
        }
        i = i + 1;
    }
    proof {
        lemma_first_in_repo(ps@, repo@, i as int);
    }
    None
}

proof fn lemma_first_in_repo(ps: Seq<RepologyPackage>, repo: Seq<char>, k: int)
    requires
        0 <= k <= ps.len(),
        forall|j: int| 0 <= j < k ==> (#[trigger] ps[j]).repo@ != repo,
        k == ps.len() || ps[k].repo@ == repo,
    ensures
        first_in_repo(ps, repo) == (if k == ps.len() {
            -1
        } else {
            k
        }),
    decreases ps.len(),
{
    if ps.len() > 0 && k > 0 {
        let t = ps.drop_first();
        assert forall|j: int| 0 <= j < k - 1 implies (#[trigger] t[j]).repo@ != repo by {
            assert(t[j] == ps[j + 1]);
        }
        if k < ps.len() {
            assert(t[k - 1] == ps[k]);
        }
        lemma_first_in_repo(t, repo, k - 1);
        assert(ps[0].repo@ != repo);
    }
}

fn find_newest_or_devel(ps: &Vec<RepologyPackage>) -> (r: Option<usize>)
    ensures
        match r {
            Some(k) => k < ps@.len() && first_newest_or_devel(ps@) == k,
            None => first_newest_or_devel(ps@) == -1,
        },
{
    let newest = chars_of("newest");
    let devel = chars_of("devel");
    let mut i: usize = 0;
    while i < ps.len()
        invariant
            i <= ps@.len(),
            newest@ == "newest"@,
            devel@ == "devel"@,
            forall|j: int|
                0 <= j < i ==> (#[trigger] ps@[j]).status@ != "newest"@ && ps@[j].status@
                    != "devel"@,
        decreases ps@.len() - i,
    {
        let s = chars_of(ps[i].status.as_str());
        if seq_eq(s.as_slice(), newest.as_slice()) || seq_eq(s.as_slice(), devel.as_slice()) {
            proof {
                lemma_first_newest_or_devel(ps@, i as int);
            }
            return Some(i);
        }
        i = i + 1;
    }
    proof {
        lemma_first_newest_or_devel(ps@, i as int);
    }
    None
}

proof fn lemma_first_newest_or_devel(ps: Seq<RepologyPackage>, k: int)
    requires
        0 <= k <= ps.len(),
        forall|j: int|
            0 <= j < k ==> (#[trigger] ps[j]).status@ != "newest"@ && ps[j].status@ != "devel"@,
        k == ps.len() || ps[k].status@ == "newest"@ || ps[k].status@ == "devel"@,
    ensures
        first_newest_or_devel(ps) == (if k == ps.len() {
            -1
        } else {
            k
        }),
    decreases ps.len(),
{
    if ps.len() > 0 && k > 0 {
        let t = ps.drop_first();
        assert forall|j: int| 0 <= j < k - 1 implies (#[trigger] t[j]).status@ != "newest"@
            && t[j].status@ != "devel"@ by {
            assert(t[j] == ps[j + 1]);
        }
        if k < ps.len() {
            assert(t[k - 1] == ps[k]);
        }
        lemma_first_newest_or_devel(t, k - 1);
        assert(ps[0].status@ != "newest"@);
    }
}

// ---------------------------------------------------------------------------
// The host repository
// ---------------------------------------------------------------------------

/// The value of the first `/etc/os-release` line starting with `key`, with
/// surrounding double quotes removed; empty when there is none.
pub open spec fn os_release_value(ls: Seq<Seq<char>>, key: Seq<char>) -> Seq<char> {
    let k = first_starting_with(ls, key);
    if k < 0 || k >= ls.len() {
        seq![]
    } else {
        strip(ls[k].skip(key.len() as int), false, seq!['"'])
    }
}

/// The repology repository name of the host: `arch` when pacman is present;
/// otherwise from the dpkg distribution and `/etc/os-release` (`ID` and
/// `VERSION_ID`): `debian_<dist>`, `ubuntu_<version>`, `fedora_<version>`,
/// `<id>_<dist>`. None when the dpkg architecture is unknown, the
/// distribution is empty or os-release is unreadable.
pub open spec fn repo_name_of(
    dpkg_arch_known: bool,
    pacman_present: bool,
    dist: Seq<char>,
    os_release: Option<Seq<char>>,
) -> Option<Seq<char>> {
    if !dpkg_arch_known {
        None
    } else if pacman_present {
        Some("arch"@)
    } else if dist.len() == 0 {
        None
    } else {
        match os_release {
            None => None,
            Some(text) => {
                let ls = lines(text);
                let id = os_release_value(ls, "ID="@);
                let version_id = os_release_value(ls, "VERSION_ID="@);
                if id == "debian"@ {
                    Some("debian_"@ + dist)
                } else if id == "ubuntu"@ {
                    Some("ubuntu_"@ + version_id)
                } else if id == "fedora"@ {
                    Some("fedora_"@ + version_id)
                } else {
                    Some(id + "_"@ + dist)
                }
            },
        }
    }
}

/// The value of the first line starting with `key` (quotes trimmed).
fn os_release_field(ls: &Vec<Vec<char>>, key: &str) -> (r: Vec<char>)
    ensures
        r@ == os_release_value(ls.deep_view(), key@),
{
    let k = chars_of(key);
    let quote: Vec<char> = vec!['"'];
    assert(quote@ =~= seq!['"']);
    let mut i: usize = 0;
    while i < ls.len()
        invariant
            i <= ls.len(),
            k@ == key@,
            quote@ == seq!['"'],
            forall|j: int| 0 <= j < i ==> !starts_with(#[trigger] ls.deep_view()[j], key@),
        decreases ls.len() - i,
    {
        assert(ls.deep_view()[i as int] == ls@[i as int]@);
        if starts_with_exec(ls[i].as_slice(), k.as_slice()) {
            proof {
                crate::text::lemma_first_starting_with(ls.deep_view(), key@, i as int);
            }
            let rest = vstd::slice::slice_subrange(ls[i].as_slice(), k.len(), ls[i].len());
            return crate::text::slice_to_vec(strip_slice(rest, false, quote.as_slice()));
        }
        i = i + 1;
    }
    proof {
        crate::text::lemma_first_starting_with(ls.deep_view(), key@, i as int);
    }
    Vec::new()
}

/// Map the host's probes to its repology repository name.
pub fn host_repo_name(
    dpkg_arch_known: bool,
    pacman_present: bool,
    dist: &str,
    os_release: Option<&str>,
) -> (r: Option<String>)
    ensures
        match r {
            Some(n) => repo_name_of(
                dpkg_arch_known,
                pacman_present,
                dist@,
                match os_release {
                    Some(t) => Some(t@),
                    None => None,
                },
            ) == Some(n@),
            None => repo_name_of(
                dpkg_arch_known,
                pacman_present,
                dist@,
                match os_release {
                    Some(t) => Some(t@),
                    None => None,
                },
            ) is None,
        },
{
    if !dpkg_arch_known {
        return None;
    }
    if pacman_present {
        return Some(String::from_str("arch"));
    }
    if dist.unicode_len() == 0 {
        return None;
    }
    let text = match os_release {
        Some(t) => t,
        None => return None,
    };
    let t = chars_of(text);
    let ls = lines_exec(t.as_slice());
    let id = os_release_field(&ls, "ID=");
    let version_id = os_release_field(&ls, "VERSION_ID=");
    let mut out: Vec<char>;
    if seq_eq(id.as_slice(), chars_of("debian").as_slice()) {
        out = chars_of("debian_");
        crate::text::append_chars(&mut out, chars_of(dist).as_slice());
    } else if seq_eq(id.as_slice(), chars_of("ubuntu").as_slice()) {
        out = chars_of("ubuntu_");
        crate::text::append_chars(&mut out, version_id.as_slice());
    } else if seq_eq(id.as_slice(), chars_of("fedora").as_slice()) {
        out = chars_of("fedora_");
        crate::text::append_chars(&mut out, version_id.as_slice());
    } else {
        out = id;
        out.push('_');
        crate::text::append_chars(&mut out, chars_of(dist).as_slice());
        proof {
            reveal_strlit("_");
        }
    }
    Some(string_of(out.as_slice()))
}

// ---------------------------------------------------------------------------
// Hits
// ---------------------------------------------------------------------------

/// The summary of a project's first package, or nothing.
pub open spec fn first_summary(ps: Seq<RepologyPackage>) -> Seq<char> {
    if ps.len() > 0 {
        match ps[0].summary {
            Some(s) => s@,
            None => Seq::empty(),
        }
    } else {
        Seq::empty()
    }
}

/// The version of the project's first package at the newest version.
pub open spec fn newest_version(project: RepologyProject) -> Option<Seq<char>> {
    let k = first_newest(statuses(project.packages@));
    if k >= 0 {
        Some(project.packages@[k].version@)
    } else {
        None
    }
}

/// The host repository's `(version, status)` of a project.
pub open spec fn host_entry(project: RepologyProject, host_repo: Option<Seq<char>>) -> Option<
    (Seq<char>, Seq<char>),
> {
    match host_repo {
        None => None,
        Some(h) => {
            let k = first_in_repo(project.packages@, h);
            if k >= 0 {
                Some((project.packages@[k].version@, project.packages@[k].status@))
            } else {
                None
            }
        },
    }
}

/// An upgrade-listing hit for one outdated row `(name, host version,
/// newest version)`.
pub open spec fn outdated_hit(hit: IndexHit, row: (Seq<char>, Seq<char>, Seq<char>), installed: Seq<Seq<char>>) -> bool {
    &&& hit.name@ == row.0
    &&& hit.description@ == Seq::<char>::empty()
    &&& hit.source@ == "repology"@
    &&& hit.installed == installed.contains(row.0)
    &&& hit.available@.len() == 0
    &&& crate::text::opt_view(hit.newest) == Some(row.2)
    &&& hit.repos == 0
    &&& hit.outdated == 0
    &&& hit.vulnerable == 0
    &&& crate::text::opt_view(hit.host_version) == Some(row.1)
    &&& hit.host_status is None
}

/// `hit` shows project `name` as a search or `info` lookup of source
/// `source` does.
pub open spec fn is_project_hit(
    hit: IndexHit,
    source: Seq<char>,
    name: Seq<char>,
    project: RepologyProject,
    host_repo: Option<Seq<char>>,
    installed: bool,
) -> bool {
    &&& hit.name@ == name
    &&& hit.description@ == first_summary(project.packages@)
    &&& hit.source@ == source
    &&& hit.installed == installed
    &&& crate::text::opt_view(hit.newest) == newest_version(project)
    &&& hit.available.deep_view() == (match newest_version(project) {
        Some(v) => seq![v],
        None => Seq::<Seq<char>>::empty(),
    })
    &&& hit.repos == project.packages@.len()
    &&& hit.outdated == count_in(statuses(project.packages@), outdated_statuses())
    &&& hit.vulnerable == count_in(statuses(project.packages@), seq!["vulnerable"@])
    &&& crate::text::opt_view(hit.host_version) == (match host_entry(project, host_repo) {
        Some(e) => Some(e.0),
        None => None::<Seq<char>>,
    })
    &&& crate::text::opt_view(hit.host_status) == (match host_entry(project, host_repo) {
        Some(e) => Some(e.1),
        None => None::<Seq<char>>,
    })
}

/// The text a search pattern is also tried on for one package of project
/// `name`: the name, the package's summary and its source name.
pub open spec fn search_haystack(name: Seq<char>, pkg: RepologyPackage) -> Seq<char> {
    name + " "@ + (match pkg.summary {
        Some(s) => s@,
        None => Seq::empty(),
    }) + " "@ + (match pkg.srcname {
        Some(s) => s@,
        None => Seq::empty(),
    })
}

/// A search pattern finds a project by its name or by the haystack of one
/// of its packages.
pub open spec fn project_matches(pattern: Seq<char>, name: Seq<char>, project: RepologyProject) -> bool {
    regex_is_match_of(pattern, name) || exists|k: int|
        0 <= k < project.packages@.len() && regex_is_match_of(pattern, #[trigger] search_haystack(name, project.packages@[k]))
}

/// The cached projects a search pattern finds, in cache order.
pub open spec fn search_results(cache: Seq<(String, RepologyProject)>, pattern: Seq<char>) -> Seq<(String, RepologyProject)> {
    cache.filter(|e: (String, RepologyProject)| project_matches(pattern, e.0@, e.1))
}

/// The pattern a search compiles: the user's, matched case-insensitively.
pub open spec fn search_pattern(p: Seq<char>) -> Seq<char> {
    "(?i)"@ + p
}

/// The installed flags of the hits: whether `installed` names the project.
pub open spec fn hits_of(
    hits: Seq<IndexHit>,
    found: Seq<(String, RepologyProject)>,
    source: Seq<char>,
    host_repo: Option<Seq<char>>,
    installed: Seq<Seq<char>>,
) -> bool {
    &&& hits.len() == found.len()
    &&& forall|i: int| 0 <= i < found.len() ==> is_project_hit(
        #[trigger] hits[i],
        source,
        found[i].0@,
        found[i].1,
        host_repo,
        installed.contains(found[i].0@),
    )
}

impl RepologySource {
    /// The hit for project `name` as a search or `info` lookup shows it:
    /// the first package's summary, the newest version (also the one
    /// version offered), the repository counts and the host repository's
    /// version and status. `installed` says whether the host has the
    /// package.
    pub fn project_hit(&self, name: &str, project: &RepologyProject, host_repo: Option<&str>, installed: bool) -> (r: IndexHit)
        ensures
            is_project_hit(r, self.name@, name@, *project, crate::text::opt_str_view(host_repo), installed),
    {
        let (newest, repos, outdated, vulnerable) = Self::distro_summary(project);
        let host = Self::host_version(project, host_repo);
        let description = if project.packages.len() > 0 {
            match &project.packages[0].summary {
                Some(s) => s.clone(),
                None => String::new(),
            }
        } else {
            String::new()
        };
        let mut available: Vec<String> = Vec::new();
        match &newest {
            Some(v) => {
                available.push(v.clone());
                assert(available.deep_view() =~= seq![v@]);
            },
            None => {
                assert(available.deep_view() =~= Seq::<Seq<char>>::empty());
            },
        }
        let (host_version, host_status) = match host {
            Some((v, st)) => (Some(v), Some(st)),
            None => (None, None),
        };
        IndexHit {
            name: String::from_str(name),
            description,
            source: self.name.clone(),
            installed,
            available,
            newest,
            repos,
            outdated,
            vulnerable,
            host_version,
            host_status,
        }
    }

    /// The upgrade listing: one hit per project the host repository ships
    /// outdated (see [`RepologySource::count_outdated`]), with the host and
    /// newest versions and whether the host has the package (`installed`
    /// lists the installed package names).
    pub fn outdated_packages(
        projects: &Vec<(String, RepologyProject)>,
        host_repo: Option<&str>,
        installed: &Vec<String>,
    ) -> (r: Vec<IndexHit>)
        requires
            strictly_sorted(projects@.map_values(|p: (String, RepologyProject)| p.0@)),
        ensures
            match host_repo {
                None => r@.len() == 0,
                Some(h) => {
                    let rows = outdated_rows(projects@, h@);
                    &&& r@.len() == rows.len()
                    &&& forall|i: int| 0 <= i < rows.len() ==> outdated_hit(#[trigger] r@[i], rows[i], installed.deep_view())
                },
            },
    {
        let rows = Self::count_outdated(projects, host_repo);
        let ghost rv = outdated_view(rows@);
        let mut hits: Vec<IndexHit> = Vec::new();
        let mut i: usize = 0;
        while i < rows.len()
            invariant
                i <= rows@.len(),
                rv == outdated_view(rows@),
                hits@.len() == i,
                forall|j: int| 0 <= j < i ==> outdated_hit(#[trigger] hits@[j], rv[j], installed.deep_view()),
            decreases rows@.len() - i,
        {
            let name = rows[i].0.clone();
            let is_installed = crate::sorted::holds(installed, chars_of(name.as_str()).as_slice());
            let hit = IndexHit {
                name,
                description: String::new(),
                source: String::from_str("repology"),
                installed: is_installed,
                available: Vec::new(),
                newest: Some(rows[i].2.clone()),
                repos: 0,
                outdated: 0,
                vulnerable: 0,
                host_version: Some(rows[i].1.clone()),
                host_status: None,
            };
            proof {
                reveal_strlit("repology");
            }
            assert(outdated_hit(hit, rv[i as int], installed.deep_view()));
            hits.push(hit);
            i = i + 1;
        }
        hits
    }
}

impl RepologySource {
    /// Whether the pattern finds the project.
    fn matches_project(pattern: &str, name: &str, project: &RepologyProject) -> (r: bool)
        requires
            regex_compiles_of(pattern@),
        ensures
            r == project_matches(pattern@, name@, *project),
    {
        if regex_is_match(pattern, name) {
            return true;
        }
        let mut k: usize = 0;
        while k < project.packages.len()
            invariant
                k <= project.packages@.len(),
                regex_compiles_of(pattern@),
                forall|j: int| 0 <= j < k ==> !regex_is_match_of(pattern@, #[trigger] search_haystack(name@, project.packages@[j])),
            decreases project.packages@.len() - k,
        {
            let pkg = &project.packages[k];
            let mut hay = String::from_str(name);
            hay.append(" ");
            match &pkg.summary {
                Some(t) => hay.append(t.as_str()),
                None => {},
            }
            hay.append(" ");
            match &pkg.srcname {
                Some(t) => hay.append(t.as_str()),
                None => {},
            }
            assert(hay@ == search_haystack(name@, project.packages@[k as int]));
            if regex_is_match(pattern, hay.as_str()) {
                return true;
            }
            k = k + 1;
        }
        false
    }

    /// Search the cached projects (`cache`, in name order): with a pattern,
    /// those whose name or package summary / source name it matches,
    /// case-insensitively; without one, every project. Each hit is shown as
    /// [`RepologySource::project_hit`] does; `installed` lists the host's
    /// installed package names. An invalid pattern is an error.
    pub fn search(
        &self,
        cache: &Vec<(String, RepologyProject)>,
        pattern: Option<&str>,
        host_repo: Option<&str>,
        installed: &Vec<String>,
    ) -> (r: Result<Vec<IndexHit>, SearchError>)
        ensures
            match pattern {
                None => r matches Ok(hits) && hits_of(hits@, cache@, self.name@, crate::text::opt_str_view(host_repo), installed.deep_view()),
                Some(p) => match r {
                    Ok(hits) => regex_compiles_of(search_pattern(p@)) && hits_of(
                        hits@,
                        search_results(cache@, search_pattern(p@)),
                        self.name@,
                        crate::text::opt_str_view(host_repo),
                        installed.deep_view(),
                    ),
                    Err(SearchError::BadPattern(q)) => !regex_compiles_of(search_pattern(p@)) && q@ == p@,
                },
            },
    {
        let full = match pattern {
            Some(p) => {
                let mut f = String::from_str("(?i)");
                f.append(p);
                if !regex_compiles(f.as_str()) {
                    return Err(SearchError::BadPattern(p.to_string()));
                }
                Some(f)
            },
            None => None,
        };
        let ghost pat = match pattern {
            Some(p) => search_pattern(p@),
            None => Seq::<char>::empty(),
        };
        let ghost pred = |e: (String, RepologyProject)| project_matches(pat, e.0@, e.1);
        let ghost want = match pattern {
            Some(_) => search_results(cache@, pat),
            None => cache@,
        };
        let mut hits: Vec<IndexHit> = Vec::new();
        let mut i: usize = 0;
        assert(cache@.take(0).filter(pred) =~= Seq::<(String, RepologyProject)>::empty());
        while i < cache.len()
            invariant
                i <= cache@.len(),
                pattern is Some <==> full is Some,
                full matches Some(f) ==> f@ == pat && regex_compiles_of(pat),
                pred == (|e: (String, RepologyProject)| project_matches(pat, e.0@, e.1)),
                hits_of(
                    hits@,
                    if pattern is Some { cache@.take(i as int).filter(pred) } else { cache@.take(i as int) },
                    self.name@,
                    crate::text::opt_str_view(host_repo),
                    installed.deep_view(),
                ),
            decreases cache@.len() - i,
        {
            let ghost before = if pattern is Some { cache@.take(i as int).filter(pred) } else { cache@.take(i as int) };
            assert(cache@.take(i + 1).drop_last() =~= cache@.take(i as int));
            assert(cache@.take(i + 1).last() == cache@[i as int]);
            reveal(Seq::filter);
            let keep = match &full {
                Some(f) => Self::matches_project(f.as_str(), cache[i].0.as_str(), &cache[i].1),
                None => true,
            };
            if keep {
                let inst = crate::sorted::holds(installed, chars_of(cache[i].0.as_str()).as_slice());
                let hit = self.project_hit(cache[i].0.as_str(), &cache[i].1, host_repo, inst);
                hits.push(hit);
                assert(hits_of(
                    hits@,
                    before.push(cache@[i as int]),
                    self.name@,
                    crate::text::opt_str_view(host_repo),
                    installed.deep_view(),
                )) by {
                    let now = before.push(cache@[i as int]);
                    assert forall|j: int| 0 <= j < now.len() implies is_project_hit(
                        #[trigger] hits@[j],
                        self.name@,
                        now[j].0@,
                        now[j].1,
                        crate::text::opt_str_view(host_repo),
                        installed.deep_view().contains(now[j].0@),
                    ) by {
                        if j < before.len() {
                            assert(now[j] == before[j]);
                        }
                    }
                }
            }
            i = i + 1;
        }
        assert(cache@.take(cache@.len() as int) =~= cache@);
        Ok(hits)
    }

    /// What `info` shows of `package`, given its looked-up project (`None`
    /// when Repology does not know it).
    pub fn info(
        &self,
        package: &str,
        project: Option<&RepologyProject>,
        host_repo: Option<&str>,
        installed: bool,
    ) -> (r: Option<IndexHit>)
        ensures
            match project {
                None => r is None,
                Some(p) => r matches Some(h) && is_project_hit(h, self.name@, package@, *p, crate::text::opt_str_view(host_repo), installed),
            },
    {
        match project {
            None => None,
            Some(p) => Some(self.project_hit(package, p, host_repo, installed)),
        }
    }
}

} // verus!
