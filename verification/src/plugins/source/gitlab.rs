//! GitLab releases (gitlab.com or self-hosted, API v4).
use vstd::prelude::*;

use super::{
    after_scheme, after_scheme_exec, forge_repo, forge_repo_of, host_owner_repo,
    host_owner_repo_exec, join_owner_repo, normalize_host, normalize_host_exec, SourcePlugin,
};
use crate::text::{chars_of, contains_exec, contains_str, seq_eq};

verus! {

/// The GitLab release provider.
pub struct GitlabSourcePlugin;

impl SourcePlugin for GitlabSourcePlugin {
    open spec fn spec_name(&self) -> Seq<char> {
        "gitlab"@
    }

    fn name(&self) -> (r: &'static str) {
        "gitlab"
    }

    open spec fn spec_description(&self) -> Seq<char> {
        "GitLab Releases (gitlab.com / self-hosted) \u{2014} via GitLab API v4"@
    }

    fn description(&self) -> (r: &'static str) {
        "GitLab Releases (gitlab.com / self-hosted) \u{2014} via GitLab API v4"
    }

    open spec fn spec_token_env(&self) -> Option<Seq<char>> {
        Some("GITLAB_TOKEN"@)
    }

    fn token_env(&self) -> (r: Option<&'static str>) {
        Some("GITLAB_TOKEN")
    }

    open spec fn spec_host_config_key(&self) -> Option<Seq<char>> {
        Some("gitlab_host"@)
    }

    fn host_config_key(&self) -> (r: Option<&'static str>) {
        Some("gitlab_host")
    }
}

/// `owner/repo` of a `https://<host>/<owner>/<repo>` URL.
pub fn try_parse_for_host(s: &str, host: &str) -> (r: Option<String>)
    ensures
        match r {
            Some(x) => forge_repo_of(s@, host@) == Some(x@),
            None => forge_repo_of(s@, host@) is None,
        },
{
    forge_repo(s, chars_of(host).as_slice())
}

/// What `parse_gitlab_url` reads from a URL: the default host's form, then
/// the `GITLAB_HOST` override's (normalized, when set and different), then
/// any URL mentioning `gitlab` whose path has an owner and repository (and
/// that does not mention `github.com`).
pub open spec fn gitlab_repo_of(s: Seq<char>, default_host: Seq<char>, env_host: Option<Seq<char>>) -> Option<
    Seq<char>,
> {
    match forge_repo_of(s, default_host) {
        Some(r) => Some(r),
        None => {
            let from_env = match env_host {
                Some(h) => {
                    let n = normalize_host(h);
                    if n.len() > 0 && n != default_host {
                        forge_repo_of(s, n)
                    } else {
                        None
                    }
                },
                None => None,
            };
            match from_env {
                Some(r) => Some(r),
                None => if contains_str(s, "gitlab"@) {
                    match after_scheme(s) {
                        None => None,
                        Some(rest) => match host_owner_repo(rest) {
                            None => None,
                            Some((owner, repo)) => if owner.len() > 0 && repo.len() > 0
                                && !contains_str(s, "github.com"@) {
                                Some(owner + "/"@ + repo)
                            } else {
                                None
                            },
                        },
                    }
                } else {
                    None
                },
            }
        },
    }
}

/// Parse a GitLab repository URL into `owner/repo`, given the default host
/// and the `GITLAB_HOST` setting (when set).
pub fn parse_gitlab_url(s: &str, default_host: &str, env_host: Option<&str>) -> (r: Option<
    String,
>)
    ensures
        match r {
            Some(x) => gitlab_repo_of(s@, default_host@, crate::text::opt_str_view(env_host))
                == Some(x@),
            None => gitlab_repo_of(s@, default_host@, crate::text::opt_str_view(env_host)) is None,
        },
{
    match try_parse_for_host(s, default_host) {
        Some(r) => return Some(r),
        None => {},
    }
    match env_host {
        Some(h) => {
            let n = normalize_host_exec(h);
            if n.len() > 0 && !seq_eq(n.as_slice(), chars_of(default_host).as_slice()) {
                match forge_repo(s, n.as_slice()) {
                    Some(r) => return Some(r),
                    None => {},
                }
            }
        },
        None => {},
    }
    let v = chars_of(s);
    if contains_exec(v.as_slice(), chars_of("gitlab").as_slice()) {
        match after_scheme_exec(v.as_slice()) {
            None => {},
            Some(rest) => match host_owner_repo_exec(rest) {
                None => return None,
                Some((owner, repo)) => {
                    if owner.len() > 0 && repo.len() > 0 && !contains_exec(
                        v.as_slice(),
                        chars_of("github.com").as_slice(),
                    ) {
                        return Some(join_owner_repo(owner.as_slice(), repo.as_slice()));
                    }
                },
            },
        }
    }
    None
}

} // verus!
