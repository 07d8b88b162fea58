use lx_plugins::plugins::package_index::repology::{
    host_repo_name, Lookup, RepologyPackage, RepologyProject, RepologySource,
};

fn pkg(repo: &str, version: &str, status: &str) -> RepologyPackage {
    RepologyPackage {
        repo: repo.into(),
        srcname: None,
        binname: None,
        version: version.into(),
        status: status.into(),
        summary: None,
        categories: None,
        licenses: None,
        maintainers: None,
    }
}

#[test]
fn distro_summary_counts_statuses() {
    let project = RepologyProject {
        packages: vec![
            RepologyPackage {
                repo: "arch".into(),
                srcname: None,
                binname: None,
                version: "1.0".into(),
                status: "newest".into(),
                summary: Some("test".into()),
                categories: None,
                licenses: None,
                maintainers: None,
            },
            RepologyPackage {
                repo: "debian_12".into(),
                srcname: None,
                binname: None,
                version: "0.9".into(),
                status: "outdated".into(),
                summary: None,
                categories: None,
                licenses: None,
                maintainers: None,
            },
            RepologyPackage {
                repo: "fedora_40".into(),
                srcname: None,
                binname: None,
                version: "0.8".into(),
                status: "vulnerable".into(),
                summary: None,
                categories: None,
                licenses: None,
                maintainers: None,
            },
        ],
        last_updated: 0,
    };
    let (newest, repos, outdated, vulnerable) = RepologySource::distro_summary(&project);
    assert_eq!(newest.as_deref(), Some("1.0"));
    assert_eq!(repos, 3);
    assert_eq!(outdated, 1);
    assert_eq!(vulnerable, 1);
}

#[test]
fn distro_summary_takes_the_first_newest_and_counts_legacy() {
    let project = RepologyProject {
        packages: vec![
            pkg("a", "0.1", "legacy"),
            pkg("b", "2.0", "devel"),
            pkg("c", "1.9", "newest"),
            pkg("d", "1.0", "ignored"),
        ],
        last_updated: 5,
    };
    let (newest, repos, outdated, vulnerable) = RepologySource::distro_summary(&project);
    assert_eq!(newest.as_deref(), Some("2.0"));
    assert_eq!((repos, outdated, vulnerable), (4, 1, 0));
}

#[test]
fn host_version_finds_the_host_repo() {
    let project = RepologyProject {
        packages: vec![pkg("arch", "1.0", "newest"), pkg("debian_12", "0.9", "outdated")],
        last_updated: 0,
    };
    assert_eq!(
        RepologySource::host_version(&project, Some("debian_12")),
        Some(("0.9".to_string(), "outdated".to_string()))
    );
    assert_eq!(RepologySource::host_version(&project, Some("fedora_40")), None);
    assert_eq!(RepologySource::host_version(&project, None), None);
}

#[test]
fn count_outdated_lists_lagging_projects_in_order() {
    let projects = vec![
        (
            "alpha".to_string(),
            RepologyProject {
                packages: vec![pkg("debian_12", "1.0", "outdated"), pkg("arch", "1.2", "newest")],
                last_updated: 0,
            },
        ),
        (
            "beta".to_string(),
            RepologyProject {
                packages: vec![pkg("debian_12", "2.0", "newest"), pkg("arch", "2.0", "newest")],
                last_updated: 0,
            },
        ),
        (
            "gamma".to_string(),
            RepologyProject {
                packages: vec![pkg("arch", "3.1", "devel"), pkg("debian_12", "3.0", "legacy")],
                last_updated: 0,
            },
        ),
    ];
    let rows = RepologySource::count_outdated(&projects, Some("debian_12"));
    assert_eq!(
        rows,
        vec![
            ("alpha".to_string(), "1.0".to_string(), "1.2".to_string()),
            ("gamma".to_string(), "3.0".to_string(), "3.1".to_string()),
        ]
    );
    assert!(RepologySource::count_outdated(&projects, None).is_empty());
}

#[test]
fn host_repo_name_maps_distros() {
    let debian = "PRETTY_NAME=\"Debian\"\nID=debian\nVERSION_ID=\"12\"\n";
    assert_eq!(host_repo_name(true, false, "bookworm", Some(debian)).as_deref(), Some("debian_bookworm"));
    let ubuntu = "ID=ubuntu\nVERSION_ID=\"24.04\"\n";
    assert_eq!(host_repo_name(true, false, "noble", Some(ubuntu)).as_deref(), Some("ubuntu_24.04"));
    let other = "ID=\"mint\"\n";
    assert_eq!(host_repo_name(true, false, "wilma", Some(other)).as_deref(), Some("mint_wilma"));
    assert_eq!(host_repo_name(true, true, "", None).as_deref(), Some("arch"));
    assert_eq!(host_repo_name(false, true, "x", None), None);
    assert_eq!(host_repo_name(true, false, "", Some(debian)), None);
    assert_eq!(host_repo_name(true, false, "bookworm", None), None);
}

#[test]
fn staleness_is_a_day() {
    assert!(RepologySource::stale(None));
    assert!(!RepologySource::stale(Some(23 * 3600 + 3599)));
    assert!(RepologySource::stale(Some(24 * 3600)));
}

#[test]
fn lookup_prefers_the_bulk_entry() {
    let per = RepologyProject { packages: vec![pkg("a", "1", "newest")], last_updated: 1 };
    let bulk = RepologyProject { packages: vec![pkg("b", "2", "newest")], last_updated: 2 };
    match RepologySource::lookup_project(Some(per.clone()), Some(bulk)) {
        Lookup::Cached(p) => assert_eq!(p.last_updated, 2),
        Lookup::FetchFromApi => panic!("expected a cached answer"),
    }
    match RepologySource::lookup_project(Some(per), None) {
        Lookup::Cached(p) => assert_eq!(p.last_updated, 1),
        Lookup::FetchFromApi => panic!("expected a cached answer"),
    }
    assert!(matches!(RepologySource::lookup_project(None, None), Lookup::FetchFromApi));
}

#[test]
fn cache_lives_under_the_base_dir() {
    let s = RepologySource::with_cache_base("repology", Some("/home/u/.cache".to_string()));
    assert_eq!(s.cache, "/home/u/.cache/lx/repology");
    let t = RepologySource::with_cache_base("repology", None);
    assert_eq!(t.cache, "/tmp/lx/repology");
    assert_eq!(t.instance_name(), "repology");
}

#[test]
fn host_repo_name_detects_arch() {
    assert_eq!(host_repo_name(true, true, "", None).as_deref(), Some("arch"));
    assert_eq!(host_repo_name(false, true, "bookworm", None), None);
}
