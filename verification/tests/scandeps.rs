use lx_plugins::scandeps::{
    declared_package_names, diff_deps, ldconfig_path, owner_from_dpkg, owner_from_pacman,
    owner_from_rpm, pkg_installed_version, PkgMgr,
};

#[test]
fn declared_names_drop_versions_and_split_alternatives() {
    let names = declared_package_names("libc6 (>= 2.36), LibSSL3 | libssl1.1, , zlib1g");
    assert_eq!(names, vec!["libc6", "libssl1.1", "libssl3", "zlib1g"]);
    assert!(declared_package_names("").is_empty());
}

#[test]
fn diff_reports_missing_and_unnecessary() {
    let owners = vec![
        "libc6:amd64".to_string(),
        "LIBZ1".to_string(),
        "libc6".to_string(),
    ];
    let (missing, unnecessary) = diff_deps(&owners, "libc6 (>= 2.36), libfoo");
    assert_eq!(missing, vec!["libz1"]);
    assert_eq!(unnecessary, vec!["libfoo"]);
}

#[test]
fn dpkg_answers_name_the_owner() {
    assert_eq!(
        owner_from_dpkg("libssl3:amd64: /usr/lib/x86_64-linux-gnu/libssl.so.3\n").as_deref(),
        Some("libssl3")
    );
    assert_eq!(owner_from_dpkg(""), None);
    assert_eq!(owner_from_dpkg(": /x\n"), None);
}

#[test]
fn rpm_answers_name_the_owner() {
    assert_eq!(owner_from_rpm("openssl-libs-3.0.7-1.fc39.x86_64\n").as_deref(), Some("openssl-libs-3.0.7"));
    assert_eq!(owner_from_rpm("1:zlib-1.2\n").as_deref(), Some("zlib"));
    assert_eq!(owner_from_rpm("no package provides libfoo.so.1\n"), None);
    assert_eq!(owner_from_rpm(""), None);
}

#[test]
fn ldconfig_and_pacman_answers() {
    let ld = "\tlibbar.so.2 (libc6,x86-64) => /usr/lib/libbar.so.2\n\tlibfoo.so.1 (libc6,x86-64) => /usr/lib/libfoo.so.1\n";
    assert_eq!(ldconfig_path(ld, "libfoo.so.1").as_deref(), Some("/usr/lib/libfoo.so.1"));
    assert_eq!(ldconfig_path(ld, "libqux.so"), None);
    assert_eq!(
        owner_from_pacman("/usr/lib/libfoo.so.1 is owned by foo 1.2.3-1\n").as_deref(),
        Some("foo")
    );
    assert_eq!(owner_from_pacman("error: nothing\n").as_deref(), Some("error:"));
    assert_eq!(owner_from_pacman("   "), None);
}

#[test]
fn installed_versions_per_manager() {
    assert_eq!(pkg_installed_version(PkgMgr::Dpkg, " 1.2-3 \n").as_deref(), Some("1.2-3"));
    assert_eq!(pkg_installed_version(PkgMgr::Dpkg, "  "), None);
    assert_eq!(pkg_installed_version(PkgMgr::Rpm, "package foo is not installed"), Some("package foo is not installed".to_string()));
    assert_eq!(pkg_installed_version(PkgMgr::Rpm, "not installed"), None);
    let qi = "Name            : foo\nVersion         : \nVersion         : 1.0-1\n";
    assert_eq!(pkg_installed_version(PkgMgr::Pacman, qi).as_deref(), Some("1.0-1"));
    assert_eq!(pkg_installed_version(PkgMgr::Pacman, "Name : foo\n"), None);
}
