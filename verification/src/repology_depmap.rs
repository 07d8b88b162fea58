//! Repology as a fallback for dependency mapping: which distribution
//! package an upstream project is shipped as, given the project's Repology
//! record and the host's distribution details (looked up by the caller).
use vstd::prelude::*;

use crate::plugins::package_index::repology::{RepologyPackage, RepologyProject};
use crate::text::{
    chars_of, first_starting_with, lines, lines_exec, lower_vec, seq_eq, starts_with,
    starts_with_exec, string_of, strip, strip_slice, to_lower,
};

verus! {

/// The package name a Repology entry ships under: its binary name, else
/// its source name, else the upstream name.
pub open spec fn shipped_name(p: RepologyPackage, upstream: Seq<char>) -> Seq<char> {
    match p.binname {
        Some(b) => b@,
        None => match p.srcname {
            Some(s) => s@,
            None => upstream,
        },
    }
}

/// Index of the first package satisfying the repository test, or -1.
pub open spec fn first_repo_match(ps: Seq<RepologyPackage>, repo: Seq<char>, by_prefix: bool) -> int
    decreases ps.len(),
{
    if ps.len() == 0 {
        -1
    } else if (if by_prefix {
        starts_with(ps[0].repo@, repo)
    } else {
        ps[0].repo@ == repo
    }) {
        0
    } else {
        let k = first_repo_match(ps.drop_first(), repo, by_prefix);
        if k < 0 {
            -1
        } else {
            k + 1
        }
    }
}

/// The distribution package an upstream project is shipped as: the first
/// package in the distribution's repository, else the first in a repository
/// whose name starts with the family.
pub open spec fn distro_package_of(
    upstream: Seq<char>,
    family: Seq<char>,
    project: Option<RepologyProject>,
    repo_name: Option<Seq<char>>,
) -> Option<Seq<char>> {
    match project {
        None => None,
        Some(p) => match repo_name {
            None => None,
            Some(r) => {
                let ps = p.packages@;
                let k = first_repo_match(ps, r, false);
                if k >= 0 {
                    Some(shipped_name(ps[k], upstream))
                } else {
                    let j = first_repo_match(ps, family, true);
                    if j >= 0 {
                        Some(shipped_name(ps[j], upstream))
                    } else {
                        None
                    }
                }
            },
        },
    }
}

proof fn lemma_first_repo_match(ps: Seq<RepologyPackage>, repo: Seq<char>, by_prefix: bool, k: int)
    requires
        0 <= k <= ps.len(),
        forall|j: int|
            0 <= j < k ==> !(if by_prefix {
                starts_with((#[trigger] ps[j]).repo@, repo)
            } else {
                ps[j].repo@ == repo
            }),
        k == ps.len() || (if by_prefix {
            starts_with(ps[k].repo@, repo)
        } else {
            ps[k].repo@ == repo
        }),
    ensures
        first_repo_match(ps, repo, by_prefix) == (if k == ps.len() {
            -1
        } else {
            k
        }),
    decreases ps.len(),
{
    if ps.len() > 0 && k > 0 {
        let t = ps.drop_first();
        assert forall|j: int|
            0 <= j < k - 1 implies !(if by_prefix {
                starts_with((#[trigger] t[j]).repo@, repo)
            } else {
                t[j].repo@ == repo
            }) by {
            assert(t[j] == ps[j + 1]);
        }
        if k < ps.len() {
            assert(t[k - 1] == ps[k]);
        }
        lemma_first_repo_match(t, repo, by_prefix, k - 1);
    }
}

fn find_repo(ps: &Vec<RepologyPackage>, repo: &str, by_prefix: bool) -> (r: Option<usize>)
    ensures
        match r {
            Some(k) => k < ps@.len() && first_repo_match(ps@, repo@, by_prefix) == k,
            None => first_repo_match(ps@, repo@, by_prefix) == -1,
        },
{
    let want = chars_of(repo);
    let mut i: usize = 0;
    while i < ps.len()
        invariant
            i <= ps@.len(),
            want@ == repo@,
            forall|j: int|
                0 <= j < i ==> !(if by_prefix {
                    starts_with((#[trigger] ps@[j]).repo@, repo@)
                } else {
                    ps@[j].repo@ == repo@
                }),
        decreases ps@.len() - i,
    {
        let r = chars_of(ps[i].repo.as_str());
        let hit = if by_prefix {
            starts_with_exec(r.as_slice(), want.as_slice())
        } else {
            seq_eq(r.as_slice(), want.as_slice())
        };
        if hit {
            proof {
                lemma_first_repo_match(ps@, repo@, by_prefix, i as int);
            }
            return Some(i);
        }
        i = i + 1;
    }
    proof {
        lemma_first_repo_match(ps@, repo@, by_prefix, i as int);
    }
    None
}

fn shipped_name_of(p: &RepologyPackage, upstream: &str) -> (r: String)
    ensures
        r@ == shipped_name(*p, upstream@),
{
    match &p.binname {
        Some(b) => b.clone(),
        None => match &p.srcname {
            Some(s) => s.clone(),
            None => String::from_str(upstream),
        },
    }
}

/// Look up the distribution package name for an upstream project, given
/// its Repology record (if found) and the distribution's repository name
/// (if known).
pub fn lookup_distro_package(
    upstream_name: &str,
    distro_family: &str,
    project: Option<&RepologyProject>,
    repo_name: Option<&str>,
) -> (r: Option<String>)
    ensures
        match r {
            Some(n) => distro_package_of(
                upstream_name@,
                distro_family@,
                match project {
                    Some(p) => Some(*p),
                    None => None,
                },
                match repo_name {
                    Some(s) => Some(s@),
                    None => None,
                },
            ) == Some(n@),
            None => distro_package_of(
                upstream_name@,
                distro_family@,
                match project {
                    Some(p) => Some(*p),
                    None => None,
                },
                match repo_name {
                    Some(s) => Some(s@),
                    None => None,
                },
            ) is None,
        },
{
    let p = match project {
        Some(p) => p,
        None => return None,
    };
    let repo = match repo_name {
        Some(r) => r,
        None => return None,
    };
    match find_repo(&p.packages, repo, false) {
        Some(k) => return Some(shipped_name_of(&p.packages[k], upstream_name)),
        None => {},
    }
    match find_repo(&p.packages, distro_family, true) {
        Some(j) => Some(shipped_name_of(&p.packages[j], upstream_name)),
        None => None,
    }
}

/// The first `VERSION_ID=` value of an os-release text, quotes removed.
pub open spec fn version_id_of(os_release: Seq<char>) -> Option<Seq<char>> {
    let ls = lines(os_release);
    let k = first_starting_with(ls, "VERSION_ID="@);
    if k < 0 || k >= ls.len() {
        None
    } else {
        Some(strip(ls[k].skip(11), false, seq!['"']))
    }
}

/// Repology's repository name for a distribution family (matched
/// case-insensitively): `debian_<dist>` / `ubuntu_<VERSION_ID>` when the
/// dpkg distribution is known (`ubuntu_24.04` without an os-release value;
/// only an exactly lower-case `ubuntu` takes the Ubuntu form), else
/// `debian_12`; fixed names for fedora, arch and opensuse.
pub open spec fn repo_name_of_family(
    family: Seq<char>,
    dist: Option<Seq<char>>,
    os_release: Option<Seq<char>>,
) -> Option<Seq<char>> {
    let f = to_lower(family);
    if f == "debian"@ || f == "ubuntu"@ {
        match dist {
            Some(d) => if family == "ubuntu"@ {
                match os_release {
                    Some(text) => match version_id_of(text) {
                        Some(v) => Some("ubuntu_"@ + v),
                        None => Some("ubuntu_24.04"@),
                    },
                    None => Some("ubuntu_24.04"@),
                }
            } else {
                Some("debian_"@ + d)
            },
            None => Some("debian_12"@),
        }
    } else if f == "fedora"@ {
        Some("fedora_42"@)
    } else if f == "arch"@ {
        Some("arch"@)
    } else if f == "opensuse"@ {
        Some("opensuse_tumbleweed"@)
    } else {
        None
    }
}

/// Map a distro family name to Repology's repo naming convention, given
/// the host's dpkg distribution and `/etc/os-release` text (when readable).
pub fn repo_name_for_family(family: &str, dist: Option<&str>, os_release: Option<&str>) -> (r:
    Option<String>)
    ensures
        match r {
            Some(n) => repo_name_of_family(
                family@,
                match dist {
                    Some(d) => Some(d@),
                    None => None,
                },
                match os_release {
                    Some(t) => Some(t@),
                    None => None,
                },
            ) == Some(n@),
            None => repo_name_of_family(
                family@,
                match dist {
                    Some(d) => Some(d@),
                    None => None,
                },
                match os_release {
                    Some(t) => Some(t@),
                    None => None,
                },
            ) is None,
        },
{
    let fam = chars_of(family);
    let f = lower_vec(fam.as_slice());
    if seq_eq(f.as_slice(), chars_of("debian").as_slice()) || seq_eq(
        f.as_slice(),
        chars_of("ubuntu").as_slice(),
    ) {
        match dist {
            Some(d) => {
                if seq_eq(fam.as_slice(), chars_of("ubuntu").as_slice()) {
                    match os_release {
                        Some(text) => {
                            match version_id(text) {
                                Some(v) => {
                                    let mut out = String::from_str("ubuntu_");
                                    out.append(v.as_str());
                                    return Some(out);
                                },
                                None => {},
                            }
                        },
                        None => {},
                    }
                    Some(String::from_str("ubuntu_24.04"))
                } else {
                    let mut out = String::from_str("debian_");
                    out.append(d);
                    Some(out)
                }
            },
            None => Some(String::from_str("debian_12")),
        }
    } else if seq_eq(f.as_slice(), chars_of("fedora").as_slice()) {
        Some(String::from_str("fedora_42"))
    } else if seq_eq(f.as_slice(), chars_of("arch").as_slice()) {
        Some(String::from_str("arch"))
    } else if seq_eq(f.as_slice(), chars_of("opensuse").as_slice()) {
        Some(String::from_str("opensuse_tumbleweed"))
    } else {
        None
    }
}

/// The first `VERSION_ID=` value of an os-release text.
fn version_id(text: &str) -> (r: Option<String>)
    ensures
        match r {
            Some(v) => version_id_of(text@) == Some(v@),
            None => version_id_of(text@) is None,
        },
{
    let t = chars_of(text);
    let ls = lines_exec(t.as_slice());
    let key = chars_of("VERSION_ID=");
    proof {
        reveal_strlit("VERSION_ID=");
    }
    let quote: Vec<char> = vec!['"'];
    assert(quote@ =~= seq!['"']);
    let mut i: usize = 0;
    while i < ls.len()
        invariant
            i <= ls.len(),
            ls.deep_view() == lines(text@),
            key@ == "VERSION_ID="@,
            key@.len() == 11,
            quote@ == seq!['"'],
            forall|j: int| 0 <= j < i ==> !starts_with(#[trigger] ls.deep_view()[j], key@),
        decreases ls.len() - i,
    {
        assert(ls.deep_view()[i as int] == ls@[i as int]@);
        if starts_with_exec(ls[i].as_slice(), key.as_slice()) {
            proof {
                crate::text::lemma_first_starting_with(ls.deep_view(), key@, i as int);
            }
            let rest = vstd::slice::slice_subrange(ls[i].as_slice(), 11, ls[i].len());
            return Some(string_of(strip_slice(rest, false, quote.as_slice())));
        }
        i = i + 1;
    }
    proof {
        crate::text::lemma_first_starting_with(ls.deep_view(), key@, i as int);
    }
    None
}

} // verus!
