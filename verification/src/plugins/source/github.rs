//! GitHub releases (api.github.com).
use vstd::prelude::*;

use super::SourcePlugin;

verus! {

/// The GitHub release provider.
pub struct GithubSourcePlugin;

impl SourcePlugin for GithubSourcePlugin {
    open spec fn spec_name(&self) -> Seq<char> {
        "github"@
    }

    fn name(&self) -> (r: &'static str) {
        "github"
    }

    open spec fn spec_description(&self) -> Seq<char> {
        "GitHub Releases (api.github.com / octocrab) \u{2014} github_repo: owner/repo"@
    }

    fn description(&self) -> (r: &'static str) {
        "GitHub Releases (api.github.com / octocrab) \u{2014} github_repo: owner/repo"
    }

    open spec fn spec_token_env(&self) -> Option<Seq<char>> {
        Some("GITHUB_TOKEN"@)
    }

    fn token_env(&self) -> (r: Option<&'static str>) {
        Some("GITHUB_TOKEN")
    }

    open spec fn spec_host_config_key(&self) -> Option<Seq<char>> {
        None
    }

    fn host_config_key(&self) -> (r: Option<&'static str>) {
        None
    }
}

} // verus!
