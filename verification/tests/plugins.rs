use lx_plugins::plugins::msix::{msix_arch, to_msix_version};
use lx_plugins::plugins::package_index::keyvalue::KeyValues;
use lx_plugins::plugins::plugin::{Plugin, PluginSet};
use lx_plugins::plugins::registry::{
    description_or, get_registry_source, registry_source_names,
};
use lx_plugins::plugins::repo::{get_repo_indexer, repo_indexer_names, RepoIndexer};
use lx_plugins::plugins::signer::{get_signer, signer_for, signer_names, Signer};
use lx_plugins::plugins::staging::{is_glob_pattern, is_license_like, man_section, safe_join, StagingError};
use lx_plugins::plugins::{
    all_packagers, expand_formats, format_release, packager_names, render_extra_fields,
};

#[test]
fn release_strings_use_dots() {
    assert_eq!(format_release("1", "bookworm"), "1.bookworm");
    assert_eq!(format_release("2+b1", "el9"), "2.b1.el9");
}

#[test]
fn formats_expand() {
    assert_eq!(expand_formats("deb, rpm ,").unwrap(), vec!["deb", "rpm"]);
    assert_eq!(expand_formats(" All ").unwrap(), packager_names());
    assert_eq!(expand_formats("deb"), None);
    assert_eq!(expand_formats(" , "), None);
}

#[test]
fn plugin_sets_find_by_name() {
    let set = PluginSet::new(all_packagers());
    assert_eq!(set.get(" RPM ").map(|p| p.name()), Some("rpm"));
    assert!(set.get("zip").is_none());
    assert_eq!(set.names(), packager_names());
    assert_eq!(set.first(|p| p.name().starts_with('a')).map(|p| p.name()), Some("arch"));
    let taken = PluginSet::new(all_packagers()).take("ipk").unwrap();
    assert_eq!(taken.name(), "ipk");
}

#[test]
fn signers_are_chosen_by_format_and_method() {
    assert_eq!(signer_for("RPM", "detach").map(|s| s.name()), Some("rpm-pgp"));
    assert_eq!(signer_for("deb", "debsign").map(|s| s.name()), Some("deb-debsign"));
    assert_eq!(signer_for("deb", "detach").map(|s| s.name()), Some("gpg-detach"));
    assert!(signer_for("msix", "detach").is_none());
    assert_eq!(get_signer(" GPG-Detach ").map(|s| s.embedded()), Some(false));
    assert!(get_signer("pkg-xar").is_none());
    assert_eq!(signer_names(), vec!["rpm-pgp", "deb-debsign", "gpg-detach"]);
    assert!(signer_for("rpm", "x").unwrap().embedded());
}

#[test]
fn repo_indexers_by_format() {
    let apt = get_repo_indexer(" DEB ").unwrap();
    assert_eq!(apt.name(), "apt");
    assert_eq!(apt.file_extension(), "deb");
    assert_eq!(get_repo_indexer("arch").unwrap().file_extension(), "zst");
    assert!(get_repo_indexer("apt").is_none());
    assert_eq!(repo_indexer_names(), vec!["apt", "opkg", "pacman", "apk", "rpm"]);
}

#[test]
fn registry_sources_by_name() {
    assert_eq!(get_registry_source("Cargo").unwrap().required_tools(), vec!["cargo"]);
    assert!(get_registry_source(" cargo").is_none());
    assert_eq!(registry_source_names().len(), 11);
    assert_eq!(description_or("Mine", || "detected".to_string()), "Mine");
    assert_eq!(description_or("", || "detected".to_string()), "detected");
}

#[test]
fn staging_rules() {
    assert_eq!(man_section("tool.1"), Some(1));
    assert_eq!(man_section("tool.8.gz"), Some(8));
    assert_eq!(man_section("tool.0"), None);
    assert_eq!(man_section(".1"), None);
    assert_eq!(man_section("tool.10"), None);
    assert_eq!(man_section("share/man/man5/tool.conf.5"), Some(5));
    assert_eq!(man_section("docs/tool.7/"), Some(7));
    assert_eq!(man_section("docs/tool.3/."), Some(3));
    assert_eq!(man_section("docs/tool.1/.."), None);
    assert_eq!(man_section("/"), None);
    assert!(is_license_like("license-MIT"));
    assert!(is_license_like("COPYING"));
    assert!(!is_license_like("README.md"));
    assert!(is_glob_pattern("bin/*"));
    assert!(!is_glob_pattern("bin/tool"));
    assert_eq!(safe_join("/stage", "/usr/bin/tool").unwrap(), "/stage/usr/bin/tool");
    assert_eq!(safe_join("/stage/", "//etc/x").unwrap(), "/stage/etc/x");
    assert_eq!(
        safe_join("/stage", "usr/bin"),
        Err(StagingError::NotAbsolute("usr/bin".to_string()))
    );
    assert_eq!(
        safe_join("/stage", "/usr/../../etc"),
        Err(StagingError::EscapesRoot("/usr/../../etc".to_string()))
    );
}

#[test]
fn msix_versions_and_arches() {
    assert_eq!(to_msix_version("1:2.5.3-rc1"), "2.5.3.0");
    assert_eq!(to_msix_version("10.2.3.4.5"), "10.2.3.4");
    assert_eq!(msix_arch(" arm64 ", "amd64"), "arm64");
    assert_eq!(msix_arch("", "amd64"), "x64");
    assert_eq!(msix_arch("", "riscv64"), "neutral");
}

#[test]
fn extra_fields_render_sorted_without_core_fields() {
    let fields = KeyValues {
        pairs: vec![
            ("X-Zeta".to_string(), " last ".to_string()),
            ("Depends".to_string(), "libc6".to_string()),
            ("X-Alpha".to_string(), "first".to_string()),
            ("X-Blank".to_string(), "  ".to_string()),
        ],
    };
    assert_eq!(render_extra_fields(&fields), "X-Alpha: first\nX-Zeta: last\n");
    assert_eq!(render_extra_fields(&KeyValues { pairs: vec![] }), "");
}

#[test]
fn plugin_identities_describe_themselves() {
    let apt = get_repo_indexer("deb").unwrap();
    assert_eq!(apt.description(), "apt repository (Packages, Packages.gz, Release, InRelease)");
    assert_eq!(apt.file_extension(), "deb");
    assert_eq!(get_repo_indexer("ipk").unwrap().file_extension(), "ipk");
    assert_eq!(
        get_registry_source("cargo").unwrap().description(),
        "crates.io (Rust) \u{2014} download .crate + extract"
    );
    for p in all_packagers() {
        assert!(!p.description().is_empty());
    }
}
