//! Forge source plugins: each release provider has a name, the environment
//! variable holding its token, the config key naming a self-hosted
//! instance, and a reading of repository URLs. This module holds the
//! identity trait and the URL pieces the providers share; the release API
//! clients stay outside.
pub mod forgejo;
pub mod gerrit;
pub mod github;
pub mod gitlab;

use vstd::prelude::*;

use crate::text::{
    chars_of, find_exec, find_str, split_class, split_class_exec, starts_with, starts_with_exec,
    string_of, strip_end, strip_end_slice, strip_prefix_all, strip_prefix_all_exec,
    strip_suffix_all, strip_suffix_all_exec, trim, trim_slice,
};

verus! {

/// Identity of a forge release provider.
pub trait SourcePlugin {
    /// The canonical name, as text.
    spec fn spec_name(&self) -> Seq<char>;

    /// Canonical name (`github`, `gitlab`, `forgejo`, `gerrit`).
    fn name(&self) -> (r: &'static str)
        ensures
            r@ == self.spec_name(),
    ;

    /// The description, as text.
    spec fn spec_description(&self) -> Seq<char>;

    /// Human-readable description.
    fn description(&self) -> (r: &'static str)
        ensures
            r@ == self.spec_description(),
    ;

    /// The token variable, if any, as text.
    spec fn spec_token_env(&self) -> Option<Seq<char>>;

    /// Environment variable holding the API token, if any.
    fn token_env(&self) -> (r: Option<&'static str>)
        ensures
            crate::text::opt_str_view(r) == self.spec_token_env(),
    ;

    /// The host config key, if any, as text.
    spec fn spec_host_config_key(&self) -> Option<Seq<char>>;

    /// Config key naming a self-hosted instance, if any.
    fn host_config_key(&self) -> (r: Option<&'static str>)
        ensures
            crate::text::opt_str_view(r) == self.spec_host_config_key(),
    ;
}

/// A host setting as written by a user: trimmed, every leading `https://`
/// and then `http://` removed, trailing `/`s removed.
pub open spec fn normalize_host(h: Seq<char>) -> Seq<char> {
    strip_end(strip_prefix_all(strip_prefix_all(trim(h), "https://"@), "http://"@), false, seq!['/'])
}

/// Normalize a host setting (`https://git.example.org/` -> `git.example.org`).
pub fn normalize_host_exec(h: &str) -> (r: Vec<char>)
    ensures
        r@ == normalize_host(h@),
{
    let v = chars_of(h);
    let slash: Vec<char> = vec!['/'];
    assert(slash@ =~= seq!['/']);
    let a = strip_prefix_all_exec(trim_slice(v.as_slice()), chars_of("https://").as_slice());
    let b = strip_prefix_all_exec(a, chars_of("http://").as_slice());
    crate::text::slice_to_vec(strip_end_slice(b, false, slash.as_slice()))
}

/// `owner/repo` from the path after a forge host: the first two `/`-pieces
/// of the path without trailing `/`s, `.git` trimmed off the repository;
/// none when either is empty or there is no second piece.
pub open spec fn owner_repo_after(rest: Seq<char>) -> Option<Seq<char>> {
    let p = split_class(strip_end(rest, false, seq!['/']), false, seq!['/']);
    if p.len() < 2 {
        None
    } else {
        let owner = p[0];
        let repo = strip_suffix_all(p[1], ".git"@);
        if owner.len() == 0 || repo.len() == 0 {
            None
        } else {
            Some(owner + "/"@ + repo)
        }
    }
}

/// `owner/repo` of a `https://<host>/<owner>/<repo>` (or `http://`) URL.
pub open spec fn forge_repo_of(s: Seq<char>, host: Seq<char>) -> Option<Seq<char>> {
    let https = "https://"@ + host + "/"@;
    let http = "http://"@ + host + "/"@;
    if starts_with(s, https) {
        owner_repo_after(s.skip(https.len() as int))
    } else if starts_with(s, http) {
        owner_repo_after(s.skip(http.len() as int))
    } else {
        None
    }
}

/// `owner/repo` from the path after a forge host.
pub fn owner_repo_exec(rest: &[char]) -> (r: Option<String>)
    ensures
        match r {
            Some(x) => owner_repo_after(rest@) == Some(x@),
            None => owner_repo_after(rest@) is None,
        },
{
    let slash: Vec<char> = vec!['/'];
    assert(slash@ =~= seq!['/']);
    let t = strip_end_slice(rest, false, slash.as_slice());
    let p = split_class_exec(t, false, slash.as_slice());
    if p.len() < 2 {
        return None;
    }
    assert(p.deep_view()[0] == p@[0]@);
    assert(p.deep_view()[1] == p@[1]@);
    let repo = strip_suffix_all_exec(p[1].as_slice(), chars_of(".git").as_slice());
    if p[0].len() == 0 || repo.len() == 0 {
        return None;
    }
    let mut out = crate::text::slice_to_vec(p[0].as_slice());
    out.push('/');
    crate::text::append_chars(&mut out, repo);
    proof {
        reveal_strlit("/");
    }
    assert(out@ =~= p@[0]@ + "/"@ + repo@);
    Some(string_of(out.as_slice()))
}

/// `<scheme>://<host>/` spelled out for `host`.
fn host_prefix(scheme: &str, host: &[char]) -> (r: Vec<char>)
    ensures
        r@ == scheme@ + "://"@ + host@ + "/"@,
{
    let mut out = chars_of(scheme);
    crate::text::append_chars(&mut out, chars_of("://").as_slice());
    crate::text::append_chars(&mut out, host);
    crate::text::append_chars(&mut out, chars_of("/").as_slice());
    out
}

/// `owner/repo` of a `https://<host>/<owner>/<repo>` (or `http://`) URL.
pub fn forge_repo(s: &str, host: &[char]) -> (r: Option<String>)
    ensures
        match r {
            Some(x) => forge_repo_of(s@, host@) == Some(x@),
            None => forge_repo_of(s@, host@) is None,
        },
{
    let v = chars_of(s);
    let https = host_prefix("https", host);
    let http = host_prefix("http", host);
    proof {
        reveal_strlit("https");
        reveal_strlit("http");
        reveal_strlit("https://");
        reveal_strlit("http://");
        reveal_strlit("://");
        assert("https"@ + "://"@ =~= "https://"@);
        assert("http"@ + "://"@ =~= "http://"@);
    }
    if starts_with_exec(v.as_slice(), https.as_slice()) {
        owner_repo_exec(vstd::slice::slice_subrange(v.as_slice(), https.len(), v.len()))
    } else if starts_with_exec(v.as_slice(), http.as_slice()) {
        owner_repo_exec(vstd::slice::slice_subrange(v.as_slice(), http.len(), v.len()))
    } else {
        None
    }
}

/// The second `"://"`-separated piece of `s` (`split("://").nth(1)`).
pub open spec fn after_scheme(s: Seq<char>) -> Option<Seq<char>> {
    let i = find_str(s, "://"@);
    if i < 0 {
        None
    } else {
        let after = s.skip(i + 3);
        let j = find_str(after, "://"@);
        if j < 0 {
            Some(after)
        } else {
            Some(after.take(j))
        }
    }
}

/// The second `"://"`-separated piece of `s`.
pub fn after_scheme_exec(s: &[char]) -> (r: Option<&[char]>)
    ensures
        match r {
            Some(x) => after_scheme(s@) == Some(x@),
            None => after_scheme(s@) is None,
        },
{
    let sep = chars_of("://");
    proof {
        reveal_strlit("://");
    }
    assert(sep@.len() == 3);
    match find_exec(s, sep.as_slice()) {
        None => None,
        Some(i) => {
            let n = s.len();
            assert(i + 3 <= n);
            let after = vstd::slice::slice_subrange(s, i + 3, n);
            match find_exec(after, sep.as_slice()) {
                None => Some(after),
                Some(j) => Some(vstd::slice::slice_subrange(after, 0, j)),
            }
        },
    }
}

/// The owner and repository pieces of the path after a URL's scheme
/// (`host/owner/repo...`); none when there are fewer than three pieces.
pub open spec fn host_owner_repo(rest: Seq<char>) -> Option<(Seq<char>, Seq<char>)> {
    let p = split_class(rest, false, seq!['/']);
    if p.len() < 3 {
        None
    } else {
        Some((p[1], strip_suffix_all(p[2], ".git"@)))
    }
}

/// The owner and repository pieces of the path after a URL's scheme.
pub fn host_owner_repo_exec(rest: &[char]) -> (r: Option<(Vec<char>, Vec<char>)>)
    ensures
        match r {
            Some((o, x)) => host_owner_repo(rest@) == Some((o@, x@)),
            None => host_owner_repo(rest@) is None,
        },
{
    let slash: Vec<char> = vec!['/'];
    assert(slash@ =~= seq!['/']);
    let p = split_class_exec(rest, false, slash.as_slice());
    if p.len() < 3 {
        return None;
    }
    assert(p.deep_view()[1] == p@[1]@);
    assert(p.deep_view()[2] == p@[2]@);
    let owner = crate::text::slice_to_vec(p[1].as_slice());
    let repo = crate::text::slice_to_vec(strip_suffix_all_exec(p[2].as_slice(), chars_of(".git").as_slice()));
    Some((owner, repo))
}

/// `owner/repo` joined.
pub fn join_owner_repo(owner: &[char], repo: &[char]) -> (r: String)
    ensures
        r@ == owner@ + "/"@ + repo@,
{
    let mut out = crate::text::slice_to_vec(owner);
    out.push('/');
    crate::text::append_chars(&mut out, repo);
    proof {
        reveal_strlit("/");
    }
    assert(out@ =~= owner@ + "/"@ + repo@);
    string_of(out.as_slice())
}

} // verus!
