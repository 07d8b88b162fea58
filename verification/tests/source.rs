use lx_plugins::plugins::source::forgejo::{parse_forgejo_url, ForgejoSourcePlugin};
use lx_plugins::plugins::source::gerrit::{parse_gerrit_url, GerritSourcePlugin};
use lx_plugins::plugins::source::github::GithubSourcePlugin;
use lx_plugins::plugins::source::gitlab::{parse_gitlab_url, try_parse_for_host, GitlabSourcePlugin};
use lx_plugins::plugins::source::SourcePlugin;

#[test]
fn gitlab_urls_on_the_default_host() {
    assert_eq!(
        parse_gitlab_url("https://gitlab.com/owner/repo", "gitlab.com", None).as_deref(),
        Some("owner/repo")
    );
    assert_eq!(
        parse_gitlab_url("http://gitlab.com/owner/repo.git/", "gitlab.com", None).as_deref(),
        Some("owner/repo")
    );
    assert_eq!(parse_gitlab_url("https://gitlab.com/owner", "gitlab.com", None), None);
    assert_eq!(try_parse_for_host("https://gitlab.com/a/b/-/tree/main", "gitlab.com").as_deref(), Some("a/b"));
}

#[test]
fn gitlab_urls_on_configured_and_guessed_hosts() {
    assert_eq!(
        parse_gitlab_url("https://git.example.org/team/tool", "gitlab.com", Some(" https://git.example.org/ "))
            .as_deref(),
        Some("team/tool")
    );
    assert_eq!(
        parse_gitlab_url("https://gitlab.example.org/team/tool.git", "gitlab.com", None).as_deref(),
        Some("team/tool")
    );
    assert_eq!(parse_gitlab_url("https://gitlab.example.org/team", "gitlab.com", None), None);
    assert_eq!(parse_gitlab_url("https://github.com/gitlab/x", "gitlab.com", None), None);
}

#[test]
fn forgejo_urls_fall_back_to_codeberg() {
    assert_eq!(
        parse_forgejo_url("https://codeberg.org/forgejo/forgejo", "forge.example", None).as_deref(),
        Some("forgejo/forgejo")
    );
    assert_eq!(
        parse_forgejo_url("https://forge.example/a/b", "forge.example", None).as_deref(),
        Some("a/b")
    );
    assert_eq!(
        parse_forgejo_url("https://forgejo.example/owner/repo", "forge.example", None).as_deref(),
        Some("owner/repo")
    );
    assert_eq!(parse_forgejo_url("https://elsewhere.example/a/b", "forge.example", None), None);
}

#[test]
fn gerrit_projects_span_segments() {
    assert_eq!(
        parse_gerrit_url("https://review.gerrithub.io/a/android/platform/build", "review.gerrithub.io", None)
            .as_deref(),
        Some("android/platform/build")
    );
    assert_eq!(
        parse_gerrit_url("https://review.gerrithub.io/p/team/proj.git?x=1", "review.gerrithub.io", None)
            .as_deref(),
        Some("team/proj")
    );
    assert_eq!(
        parse_gerrit_url("https://review.gerrithub.io/single", "review.gerrithub.io", None),
        None
    );
    assert_eq!(
        parse_gerrit_url("https://gerrit.example.org/p/team/app/+/refs/heads/main", "review.gerrithub.io", None)
            .as_deref(),
        Some("team/app/+/refs/heads/main")
    );
    assert_eq!(
        parse_gerrit_url("https://host.example/a/org/repo#frag", "review.gerrithub.io", None).as_deref(),
        Some("org/repo")
    );
}

#[test]
fn providers_name_their_tokens() {
    assert_eq!(GitlabSourcePlugin.token_env(), Some("GITLAB_TOKEN"));
    assert_eq!(ForgejoSourcePlugin.host_config_key(), Some("forgejo_host"));
    assert_eq!(GerritSourcePlugin.name(), "gerrit");
    assert_eq!(GithubSourcePlugin.host_config_key(), None);
}
