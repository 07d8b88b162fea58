//! Forgejo releases (codeberg.org or self-hosted, Forgejo/Gitea API v1).
use vstd::prelude::*;

use super::{
    after_scheme, after_scheme_exec, forge_repo, forge_repo_of, host_owner_repo,
    host_owner_repo_exec, join_owner_repo, normalize_host, normalize_host_exec, SourcePlugin,
};
use crate::text::{chars_of, contains_exec, contains_str, seq_eq};

verus! {

/// The Forgejo release provider.
pub struct ForgejoSourcePlugin;

impl SourcePlugin for ForgejoSourcePlugin {
    open spec fn spec_name(&self) -> Seq<char> {
        "forgejo"@
    }

    fn name(&self) -> (r: &'static str) {
        "forgejo"
    }

    open spec fn spec_description(&self) -> Seq<char> {
        "Forgejo Releases (codeberg.org / self-hosted, Forgejo/Gitea API v1)"@
    }

    fn description(&self) -> (r: &'static str) {
        "Forgejo Releases (codeberg.org / self-hosted, Forgejo/Gitea API v1)"
    }

    open spec fn spec_token_env(&self) -> Option<Seq<char>> {
        Some("FORGEJO_TOKEN"@)
    }

    fn token_env(&self) -> (r: Option<&'static str>) {
        Some("FORGEJO_TOKEN")
    }

    open spec fn spec_host_config_key(&self) -> Option<Seq<char>> {
        Some("forgejo_host"@)
    }

    fn host_config_key(&self) -> (r: Option<&'static str>) {
        Some("forgejo_host")
    }
}

/// `owner/repo` of a `https://<host>/<owner>/<repo>` URL.
pub fn try_parse_for_host(s: &str, host: &str) -> (r: Option<String>)
    ensures
        match r {
            Some(x) => forge_repo_of(s@, host@) == Some(x@),
            None => forge_repo_of(s@, host@) is None,
        },
{
    forge_repo(s, chars_of(host).as_slice())
}

/// What `parse_forgejo_url` reads from a URL: the default host's form, then
/// the `FORGEJO_HOST` override's, then any URL mentioning `forgejo` (and
/// neither `github.com` nor `gitlab.com`) whose path has an owner and
/// repository (a path too short ends the search), then codeberg.org's form.
pub open spec fn forgejo_repo_of(s: Seq<char>, default_host: Seq<char>, env_host: Option<Seq<char>>) -> Option<
    Seq<char>,
> {
    match forge_repo_of(s, default_host) {
        Some(r) => Some(r),
        None => {
            let from_env = match env_host {
                Some(h) => {
                    let n = normalize_host(h);
                    if n.len() > 0 && n != default_host {
                        forge_repo_of(s, n)
                    } else {
                        None
                    }
                },
                None => None,
            };
            match from_env {
                Some(r) => Some(r),
                None => {
                    let heuristic = contains_str(s, "forgejo"@) && !contains_str(s, "github.com"@)
                        && !contains_str(s, "gitlab.com"@);
                    let found = if heuristic {
                        match after_scheme(s) {
                            None => Ok(None),
                            Some(rest) => match host_owner_repo(rest) {
                                None => Err(()),
                                Some((owner, repo)) => if owner.len() > 0 && repo.len() > 0 {
                                    Ok(Some(owner + "/"@ + repo))
                                } else {
                                    Ok(None)
                                },
                            },
                        }
                    } else {
                        Ok(None)
                    };
                    match found {
                        Err(_) => None,
                        Ok(Some(r)) => Some(r),
                        Ok(None) => forge_repo_of(s, "codeberg.org"@),
                    }
                },
            }
        },
    }
}

/// Parse a Forgejo repository URL into `owner/repo`, given the default host
/// and the `FORGEJO_HOST` setting (when set).
pub fn parse_forgejo_url(s: &str, default_host: &str, env_host: Option<&str>) -> (r: Option<
    String,
>)
    ensures
        match r {
            Some(x) => forgejo_repo_of(s@, default_host@, crate::text::opt_str_view(env_host))
                == Some(x@),
            None => forgejo_repo_of(s@, default_host@, crate::text::opt_str_view(env_host))
                is None,
        },
{
    match try_parse_for_host(s, default_host) {
        Some(r) => return Some(r),
        None => {},
    }
    match env_host {
        Some(h) => {
            let n = normalize_host_exec(h);
            if n.len() > 0 && !seq_eq(n.as_slice(), chars_of(default_host).as_slice()) {
                match forge_repo(s, n.as_slice()) {
                    Some(r) => return Some(r),
                    None => {},
                }
            }
        },
        None => {},
    }
    let v = chars_of(s);
    if contains_exec(v.as_slice(), chars_of("forgejo").as_slice()) && !contains_exec(
        v.as_slice(),
        chars_of("github.com").as_slice(),
    ) && !contains_exec(v.as_slice(), chars_of("gitlab.com").as_slice()) {
        match after_scheme_exec(v.as_slice()) {
            None => {},
            Some(rest) => match host_owner_repo_exec(rest) {
                None => return None,
                Some((owner, repo)) => {
                    if owner.len() > 0 && repo.len() > 0 {
                        return Some(join_owner_repo(owner.as_slice(), repo.as_slice()));
                    }
                },
            },
        }
    }
    try_parse_for_host(s, "codeberg.org")
}

} // verus!
