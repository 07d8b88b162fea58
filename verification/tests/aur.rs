use lx_plugins::plugins::package_index::aur::{
    bash_array, github_repo_from_url, pkgbuild_to_yaml, upstream_github_repo,
};

#[test]
fn bash_array_strips_quotes_and_versions() {
    let pkgbuild = "depends=('glibc' 'openssl>=3.0' \"zlib\")\n";
    assert_eq!(
        bash_array(pkgbuild, "depends"),
        vec!["glibc", "openssl", "zlib"]
    );
    assert!(bash_array(pkgbuild, "makedepends").is_empty());
}

#[test]
fn pkgbuild_to_yaml_emits_makedepends_as_build_depends() {
    let pkgbuild = "pkgver=1.2.3\nurl=https://example.com/x\nlicense=('MIT')\n\
                    depends=('libfoo')\nmakedepends=('cmake' 'ninja' 'git')\n\nbuild() {\n  true\n}\n";
    let yaml = pkgbuild_to_yaml("x", pkgbuild);
    assert!(yaml.contains("depends: \"libfoo\""), "{yaml}");
    assert!(
        yaml.contains("build_depends: [cmake, ninja, git]"),
        "{yaml}"
    );
    assert!(yaml.contains("version: \"1.2.3\""), "{yaml}");
}

#[test]
fn pkgbuild_to_yaml_omits_empty_makedepends() {
    let yaml = pkgbuild_to_yaml("x", "pkgver=1.0\n");
    assert!(!yaml.contains("build_depends"), "{yaml}");
}

#[test]
fn bash_array_handles_multiline_arrays() {
    let pkgbuild = "depends=(\n  'glibc'\n  'openssl>=3.0'\n)\n";
    assert_eq!(bash_array(pkgbuild, "depends"), vec!["glibc", "openssl"]);
}

#[test]
fn github_repo_from_url_handles_common_forms() {
    assert_eq!(
        github_repo_from_url("https://github.com/ogulcancelik/herdr").as_deref(),
        Some("ogulcancelik/herdr")
    );
    assert_eq!(
        github_repo_from_url("git+https://github.com/ogulcancelik/herdr.git").as_deref(),
        Some("ogulcancelik/herdr")
    );
    assert_eq!(
        github_repo_from_url(
            "herdr-0.9.0.tar.gz::https://github.com/ogulcancelik/herdr/archive/v0.9.0.tar.gz"
        )
        .as_deref(),
        Some("ogulcancelik/herdr")
    );
    assert_eq!(
        github_repo_from_url("https://gist.github.com/foo/bar"),
        None
    );
    assert_eq!(github_repo_from_url("https://herdr.dev"), None);
    assert_eq!(github_repo_from_url(""), None);
}

#[test]
fn upstream_repo_prefers_source_over_url() {
    let pkgbuild = "url=https://herdr.dev\n\
                    source=(\"herdr-$pkgver.tar.gz::https://github.com/ogulcancelik/herdr/archive/v$pkgver.tar.gz\")\n";
    assert_eq!(
        upstream_github_repo(pkgbuild).as_deref(),
        Some("ogulcancelik/herdr")
    );
}

#[test]
fn upstream_repo_falls_back_to_github_url() {
    let pkgbuild = "url=https://github.com/herdrdev/herdr\nsource=(\"local.tar.gz\")\n";
    assert_eq!(
        upstream_github_repo(pkgbuild).as_deref(),
        Some("herdrdev/herdr")
    );
}

#[test]
fn pkgbuild_to_yaml_uses_real_repo_and_never_owner_placeholder() {
    let pkgbuild = "pkgver=0.9.0\nurl=https://herdr.dev\n\
                    source=(\"$pkgname-$pkgver.tar.gz::https://github.com/ogulcancelik/herdr/archive/v$pkgver.tar.gz\")\n";
    let yaml = pkgbuild_to_yaml("herdr", pkgbuild);
    assert!(yaml.contains("github_repo: ogulcancelik/herdr"), "{yaml}");
    assert!(!yaml.contains("OWNER/"), "{yaml}");
}

#[test]
fn pkgbuild_to_yaml_omits_repo_when_unknown() {
    let pkgbuild = "pkgver=1.0\nurl=https://example.com/x\nsource=(\"local.tar.gz\")\n";
    let yaml = pkgbuild_to_yaml("x", pkgbuild);
    assert!(!yaml.contains("github_repo:"), "{yaml}");
    assert!(!yaml.contains("OWNER/"), "{yaml}");
}

#[test]
fn pkgbuild_to_yaml_renames_the_binary_to_the_command() {
    let pkgbuild = "pkgver=0.9.0\n\
                    source=(\"h.tar.gz::https://github.com/ogulcancelik/herdr/archive/v$pkgver.tar.gz\")\n";
    let yaml = pkgbuild_to_yaml("herdr", pkgbuild);
    assert!(yaml.contains("binary_rename: herdr"), "{yaml}");
}
