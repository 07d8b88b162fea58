//! Gerrit Code Review releases (review.gerrithub.io or self-hosted): a
//! project may span several path segments (`platform/build`).
use vstd::prelude::*;

use super::{normalize_host, normalize_host_exec, SourcePlugin};
use crate::text::{
    before_class,
    before_class_exec,
    before_str,
    before_str_exec,
    chars_of,
    contains_exec,
    contains_str,
    second_piece,
    second_piece_exec,
    seq_eq,
    starts_with,
    starts_with_exec,
    string_of,
    strip_end,
    strip_end_slice,
    strip_suffix_all,
    strip_suffix_all_exec,
};

verus! {

/// The Gerrit release provider.
pub struct GerritSourcePlugin;

impl SourcePlugin for GerritSourcePlugin {
    open spec fn spec_name(&self) -> Seq<char> {
        "gerrit"@
    }

    fn name(&self) -> (r: &'static str) {
        "gerrit"
    }

    open spec fn spec_description(&self) -> Seq<char> {
        "Gerrit Code Review (review.gerrithub.io / self-hosted, Gerrit API)"@
    }

    fn description(&self) -> (r: &'static str) {
        "Gerrit Code Review (review.gerrithub.io / self-hosted, Gerrit API)"
    }

    open spec fn spec_token_env(&self) -> Option<Seq<char>> {
        Some("GERRIT_TOKEN"@)
    }

    fn token_env(&self) -> (r: Option<&'static str>) {
        Some("GERRIT_TOKEN")
    }

    open spec fn spec_host_config_key(&self) -> Option<Seq<char>> {
        Some("gerrit_host"@)
    }

    fn host_config_key(&self) -> (r: Option<&'static str>) {
        Some("gerrit_host")
    }
}

/// The URL prefixes tried for a host, most specific first.
pub open spec fn gerrit_prefixes(host: Seq<char>) -> Seq<Seq<char>> {
    seq![
        "https://"@ + host + "/a/"@,
        "http://"@ + host + "/a/"@,
        "https://"@ + host + "/p/"@,
        "http://"@ + host + "/p/"@,
        "https://"@ + host + "/"@,
        "http://"@ + host + "/"@,
    ]
}

/// The project named by the path after a Gerrit host prefix: query and
/// fragment dropped, cut before `/+/`, `/releases` and `/tags`, trailing
/// `/`s and `.git` trimmed; none unless it has a `/`.
pub open spec fn gerrit_project_after(rest: Seq<char>) -> Option<Seq<char>> {
    let r = before_class(before_class(rest, seq!['?']), seq!['#']);
    let p = strip_suffix_all(
        strip_end(before_str(before_str(before_str(r, "/+/"@), "/releases"@), "/tags"@), false, seq!['/']),
        ".git"@,
    );
    if p.len() == 0 || !p.contains('/') {
        None
    } else {
        Some(p)
    }
}

/// Index of the first prefix (from `k`) that `s` starts with, or -1.
pub open spec fn first_prefix(s: Seq<char>, ps: Seq<Seq<char>>, k: int) -> int
    decreases ps.len() - k,
{
    if k < 0 || k >= ps.len() {
        -1
    } else if starts_with(s, ps[k]) {
        k
    } else {
        first_prefix(s, ps, k + 1)
    }
}

/// The Gerrit project of a `https://<host>/[a/|p/]<project>` URL.
pub open spec fn gerrit_repo_of(s: Seq<char>, host: Seq<char>) -> Option<Seq<char>> {
    let ps = gerrit_prefixes(host);
    let k = first_prefix(s, ps, 0);
    if k < 0 {
        None
    } else {
        gerrit_project_after(s.skip(ps[k].len() as int))
    }
}

fn project_after(rest: &[char]) -> (r: Option<String>)
    ensures
        match r {
            Some(x) => gerrit_project_after(rest@) == Some(x@),
            None => gerrit_project_after(rest@) is None,
        },
{
    let q: Vec<char> = vec!['?'];
    assert(q@ =~= seq!['?']);
    let h: Vec<char> = vec!['#'];
    assert(h@ =~= seq!['#']);
    let slash: Vec<char> = vec!['/'];
    assert(slash@ =~= seq!['/']);
    let r = before_class_exec(before_class_exec(rest, q.as_slice()), h.as_slice());
    let a = before_str_exec(r, chars_of("/+/").as_slice());
    let b = before_str_exec(a, chars_of("/releases").as_slice());
    let c = before_str_exec(b, chars_of("/tags").as_slice());
    let p = strip_suffix_all_exec(strip_end_slice(c, false, slash.as_slice()), chars_of(".git").as_slice());
    if p.len() == 0 || !has_slash(p) {
        return None;
    }
    Some(string_of(p))
}

/// The six prefixes for `host`, built.
fn prefixes_for(host: &[char]) -> (r: Vec<Vec<char>>)
    ensures
        r.deep_view() == gerrit_prefixes(host@),
{
    let mut out: Vec<Vec<char>> = Vec::new();
    let schemes = vec!["https://", "http://", "https://", "http://", "https://", "http://"];
    let tails = vec!["/a/", "/a/", "/p/", "/p/", "/", "/"];
    let mut k: usize = 0;
    while k < 6
        invariant
            k <= 6,
            schemes@.len() == 6,
            tails@.len() == 6,
            schemes@[0]@ == "https://"@ && schemes@[1]@ == "http://"@ && schemes@[2]@
                == "https://"@ && schemes@[3]@ == "http://"@ && schemes@[4]@ == "https://"@
                && schemes@[5]@ == "http://"@,
            tails@[0]@ == "/a/"@ && tails@[1]@ == "/a/"@ && tails@[2]@ == "/p/"@ && tails@[3]@
                == "/p/"@ && tails@[4]@ == "/"@ && tails@[5]@ == "/"@,
            out.deep_view() == gerrit_prefixes(host@).take(k as int),
        decreases 6 - k,
    {
        let mut p = chars_of(schemes[k]);
        crate::text::append_chars(&mut p, host);
        crate::text::append_chars(&mut p, chars_of(tails[k]).as_slice());
        assert(p@ == gerrit_prefixes(host@)[k as int]);
        assert(p.deep_view() =~= p@);
        let ghost before = out.deep_view();
        out.push(p);
        assert(out.deep_view() =~= before.push(gerrit_prefixes(host@)[k as int]));
        assert(gerrit_prefixes(host@).take(k + 1) =~= gerrit_prefixes(host@).take(k as int).push(
            gerrit_prefixes(host@)[k as int],
        ));
        k = k + 1;
    }
    assert(gerrit_prefixes(host@).take(6) =~= gerrit_prefixes(host@));
    out
}

/// The Gerrit project of a `https://<host>/[a/|p/]<project>` URL.
pub fn try_parse_for_host(s: &str, host: &str) -> (r: Option<String>)
    ensures
        match r {
            Some(x) => gerrit_repo_of(s@, host@) == Some(x@),
            None => gerrit_repo_of(s@, host@) is None,
        },
{
    let v = chars_of(s);
    let ps = prefixes_for(chars_of(host).as_slice());
    let ghost pv = ps.deep_view();
    let mut k: usize = 0;
    while k < ps.len()
        invariant
            k <= ps.len(),
            pv == ps.deep_view(),
            pv == gerrit_prefixes(host@),
            v@ == s@,
            first_prefix(s@, pv, 0) == first_prefix(s@, pv, k as int),
        decreases ps.len() - k,
    {
        assert(pv[k as int] == ps@[k as int]@);
        if starts_with_exec(v.as_slice(), ps[k].as_slice()) {
            let n = v.len();
            return project_after(vstd::slice::slice_subrange(v.as_slice(), ps[k].len(), n));
        }
        k = k + 1;
    }
    None
}

/// The project a Gerrit path names after the host, with an `a/` or `p/`
/// marker removed (the first that leads it).
pub open spec fn unmarked(project: Seq<char>) -> Seq<char> {
    if starts_with(project, "a/"@) {
        project.skip(2)
    } else if starts_with(project, "p/"@) {
        project.skip(2)
    } else {
        project
    }
}

/// What `parse_gerrit_url` reads from a URL: the default host's form, then
/// the `GERRIT_HOST` override's, then a URL mentioning `gerrit` (and none of
/// github.com, gitlab.com, bitbucket.org, codeberg.org) whose path after the
/// host is a multi-segment project (a URL without a path ends the search),
/// then the project after an `/a/` marker.
pub open spec fn gerrit_url_repo_of(s: Seq<char>, default_host: Seq<char>, env_host: Option<Seq<char>>) -> Option<
    Seq<char>,
> {
    match gerrit_repo_of(s, default_host) {
        Some(r) => Some(r),
        None => {
            let from_env = match env_host {
                Some(h) => {
                    let n = normalize_host(h);
                    if n.len() > 0 && n != default_host {
                        gerrit_repo_of(s, n)
                    } else {
                        None
                    }
                },
                None => None,
            };
            match from_env {
                Some(r) => Some(r),
                None => {
                    let heuristic = contains_str(s, "gerrit"@) && !contains_str(s, "github.com"@)
                        && !contains_str(s, "gitlab.com"@) && !contains_str(s, "bitbucket.org"@)
                        && !contains_str(s, "codeberg.org"@);
                    let found = if heuristic {
                        match second_piece(s, "://"@) {
                            None => Ok(None),
                            Some(rest) => {
                                let k = crate::text::find_class(rest, false, seq!['/']);
                                if k < 0 {
                                    Err(())
                                } else {
                                    let p = unmarked(
                                        strip_end(
                                            strip_suffix_all(rest.skip(k + 1), ".git"@),
                                            false,
                                            seq!['/'],
                                        ),
                                    );
                                    if p.len() > 0 && p.contains('/') {
                                        Ok(Some(p))
                                    } else {
                                        Ok(None)
                                    }
                                }
                            },
                        }
                    } else {
                        Ok(None)
                    };
                    match found {
                        Err(_) => None,
                        Ok(Some(r)) => Some(r),
                        Ok(None) => if contains_str(s, "/a/"@) {
                            match second_piece(s, "/a/"@) {
                                None => None,
                                Some(rest) => {
                                    let p = strip_suffix_all(
                                        strip_end(
                                            before_class(before_class(rest, seq!['?']), seq!['#']),
                                            false,
                                            seq!['/'],
                                        ),
                                        ".git"@,
                                    );
                                    if p.len() > 0 && p.contains('/') {
                                        Some(p)
                                    } else {
                                        None
                                    }
                                },
                            }
                        } else {
                            None
                        },
                    }
                },
            }
        },
    }
}

/// Whether `p` holds a `/`.
fn has_slash(p: &[char]) -> (r: bool)
    ensures
        r == p@.contains('/'),
{
    let mut i: usize = 0;
    while i < p.len()
        invariant
            i <= p@.len(),
            forall|j: int| 0 <= j < i ==> p@[j] != '/',
        decreases p@.len() - i,
    {
        if p[i] == '/' {
            return true;
        }
        i = i + 1;
    }
    false
}

/// Parse a Gerrit URL into its project, given the default host and the
/// `GERRIT_HOST` setting (when set).
pub fn parse_gerrit_url(s: &str, default_host: &str, env_host: Option<&str>) -> (r: Option<
    String,
>)
    ensures
        match r {
            Some(x) => gerrit_url_repo_of(s@, default_host@, crate::text::opt_str_view(env_host))
                == Some(x@),
            None => gerrit_url_repo_of(s@, default_host@, crate::text::opt_str_view(env_host))
                is None,
        },
{
    match try_parse_for_host(s, default_host) {
        Some(r) => return Some(r),
        None => {},
    }
    match env_host {
        Some(h) => {
            let n = normalize_host_exec(h);
            if n.len() > 0 && !seq_eq(n.as_slice(), chars_of(default_host).as_slice()) {
                match try_parse_for_host(s, string_of(n.as_slice()).as_str()) {
                    Some(r) => return Some(r),
                    None => {},
                }
            }
        },
        None => {},
    }
    let v = chars_of(s);
    let slash: Vec<char> = vec!['/'];
    assert(slash@ =~= seq!['/']);
    proof {
        reveal_strlit("a/");
        reveal_strlit("p/");
    }
    if contains_exec(v.as_slice(), chars_of("gerrit").as_slice()) && !contains_exec(
        v.as_slice(),
        chars_of("github.com").as_slice(),
    ) && !contains_exec(v.as_slice(), chars_of("gitlab.com").as_slice()) && !contains_exec(
        v.as_slice(),
        chars_of("bitbucket.org").as_slice(),
    ) && !contains_exec(v.as_slice(), chars_of("codeberg.org").as_slice()) {
        match second_piece_exec(v.as_slice(), chars_of("://").as_slice()) {
            None => {},
            Some(rest) => {
                let k = crate::text::find_class_from(rest, 0, false, slash.as_slice());
                assert(rest@.skip(0) =~= rest@);
                if k == rest.len() {
                    return None;
                }
                let after = vstd::slice::slice_subrange(rest, k + 1, rest.len());
                let t = strip_end_slice(
                    strip_suffix_all_exec(after, chars_of(".git").as_slice()),
                    false,
                    slash.as_slice(),
                );
                let p = if starts_with_exec(t, chars_of("a/").as_slice()) {
                    vstd::slice::slice_subrange(t, 2, t.len())
                } else if starts_with_exec(t, chars_of("p/").as_slice()) {
                    vstd::slice::slice_subrange(t, 2, t.len())
                } else {
                    t
                };
                if p.len() > 0 && has_slash(p) {
                    return Some(string_of(p));
                }
            },
        }
    }
    if contains_exec(v.as_slice(), chars_of("/a/").as_slice()) {
        match second_piece_exec(v.as_slice(), chars_of("/a/").as_slice()) {
            None => {},
            Some(rest) => {
                let q: Vec<char> = vec!['?'];
                assert(q@ =~= seq!['?']);
                let h: Vec<char> = vec!['#'];
                assert(h@ =~= seq!['#']);
                let r = before_class_exec(before_class_exec(rest, q.as_slice()), h.as_slice());
                let p = strip_suffix_all_exec(
                    strip_end_slice(r, false, slash.as_slice()),
                    chars_of(".git").as_slice(),
                );
                if p.len() > 0 && has_slash(p) {
                    return Some(string_of(p));
                }
            },
        }
    }
    None
}

} // verus!
