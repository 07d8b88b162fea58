use lx_plugins::plugins::package_index::repology::{RepologyPackage, RepologyProject};
use lx_plugins::repology_depmap::{lookup_distro_package, repo_name_for_family};

#[test]
fn repo_name_for_debian() {
    let repo = repo_name_for_family("debian", None, None);
    assert!(repo.is_some());
    let repo = repo.unwrap();
    assert!(repo.starts_with("debian_"));
}

#[test]
fn repo_name_for_arch() {
    assert_eq!(repo_name_for_family("arch", None, None), Some("arch".to_string()));
}

#[test]
fn repo_name_for_unknown() {
    assert_eq!(repo_name_for_family("plan9", None, None), None);
}

#[test]
fn repo_names_follow_the_host_distribution() {
    assert_eq!(repo_name_for_family("debian", Some("bookworm"), None).as_deref(), Some("debian_bookworm"));
    assert_eq!(repo_name_for_family("debian", None, None).as_deref(), Some("debian_12"));
    let os = "NAME=Ubuntu\nVERSION_ID=\"24.10\"\n";
    assert_eq!(repo_name_for_family("ubuntu", Some("oracular"), Some(os)).as_deref(), Some("ubuntu_24.10"));
    assert_eq!(repo_name_for_family("ubuntu", Some("noble"), None).as_deref(), Some("ubuntu_24.04"));
    // Only an exactly lower-case "ubuntu" takes the Ubuntu form.
    assert_eq!(repo_name_for_family("Ubuntu", Some("noble"), Some(os)).as_deref(), Some("debian_noble"));
    assert_eq!(repo_name_for_family("FEDORA", None, None).as_deref(), Some("fedora_42"));
    assert_eq!(repo_name_for_family("opensuse", None, None).as_deref(), Some("opensuse_tumbleweed"));
}

fn pkg(repo: &str, bin: Option<&str>, src: Option<&str>) -> RepologyPackage {
    RepologyPackage {
        repo: repo.into(),
        srcname: src.map(|s| s.to_string()),
        binname: bin.map(|s| s.to_string()),
        version: "1".into(),
        status: "newest".into(),
        summary: None,
        categories: None,
        licenses: None,
        maintainers: None,
    }
}

#[test]
fn distro_packages_prefer_the_exact_repository() {
    let project = RepologyProject {
        packages: vec![
            pkg("debian_11", Some("libfoo1"), None),
            pkg("debian_12", Some("libfoo2"), None),
            pkg("fedora_42", None, Some("foo")),
        ],
        last_updated: 0,
    };
    assert_eq!(
        lookup_distro_package("foo", "debian", Some(&project), Some("debian_12")).as_deref(),
        Some("libfoo2")
    );
    assert_eq!(
        lookup_distro_package("foo", "debian", Some(&project), Some("debian_13")).as_deref(),
        Some("libfoo1")
    );
    assert_eq!(
        lookup_distro_package("foo", "fedora", Some(&project), Some("fedora_42")).as_deref(),
        Some("foo")
    );
    assert_eq!(lookup_distro_package("foo", "arch", Some(&project), Some("arch")), None);
    assert_eq!(lookup_distro_package("foo", "debian", None, Some("debian_12")), None);
    assert_eq!(lookup_distro_package("foo", "debian", Some(&project), None), None);
    let bare = RepologyProject { packages: vec![pkg("arch", None, None)], last_updated: 0 };
    assert_eq!(lookup_distro_package("foo", "arch", Some(&bare), Some("arch")).as_deref(), Some("foo"));
}
