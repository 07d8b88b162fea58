use lx_plugins::plugins::msix::{
    build_manifest, check_msix_config, msix_file_name, DeviceFamily, MsixAppConfig, MsixConfig,
    MsixError,
};
use lx_plugins::sbom::{
    artifact_order, is_artifact_name,
    artifact_spdx_id, artifacts_digest, attestation_file_names, document_namespace,
    material_spdx_id, sanitize, sbom_stem, Artifact,
};
use lx_plugins::sourcebuild::{
    build_system_choice, check_native, depends_from_owners, explicit_version, source_ref,
    source_tarball_url, split_comma_list, SourceBuildError,
};

fn strings(v: &[&str]) -> Vec<String> {
    v.iter().map(|s| s.to_string()).collect()
}

#[test]
fn comma_lists_are_split_and_trimmed() {
    assert_eq!(split_comma_list("amd64, arm64 ,riscv64"), strings(&["amd64", "arm64", "riscv64"]));
    assert_eq!(split_comma_list("amd64"), strings(&["amd64"]));
}

#[test]
fn native_builds_only() {
    assert!(check_native(&strings(&["amd64", "amd64"]), "amd64").is_ok());
    assert!(check_native(&strings(&[]), "amd64").is_ok());
    match check_native(&strings(&["amd64", "arm64", "riscv64"]), "amd64") {
        Err(SourceBuildError::NotNative { requested, host }) => {
            assert_eq!(requested, "arm64");
            assert_eq!(host, "amd64");
        }
        other => panic!("unexpected {other:?}"),
    }
}

#[test]
fn explicit_version_prefers_the_command_line() {
    assert_eq!(explicit_version(Some("1.2".to_string()), "0.9").as_deref(), Some("1.2"));
    assert_eq!(explicit_version(Some("  ".to_string()), "0.9").as_deref(), Some("0.9"));
    assert_eq!(explicit_version(None, " "), None);
}

#[test]
fn build_system_is_kept_only_when_configured() {
    assert_eq!(build_system_choice("custom", "").as_deref(), Some("custom"));
    assert_eq!(build_system_choice("cargo", "cargo").as_deref(), Some("cargo"));
    assert_eq!(build_system_choice("cargo", "  "), None);
}

#[test]
fn tarball_urls() {
    assert_eq!(source_ref(" v1.0 ", "1.0"), "v1.0");
    assert_eq!(source_ref("", "1.0"), "1.0");
    assert_eq!(
        source_tarball_url("owner/repo", "", "v1.0"),
        "https://github.com/owner/repo/archive/refs/tags/v1.0.tar.gz"
    );
    assert_eq!(
        source_tarball_url("owner/repo", "https://git.example.org/x/y//", "v1.0"),
        "https://git.example.org/x/y/archive/v1.0.tar.gz"
    );
}

#[test]
fn depends_from_owning_packages() {
    assert_eq!(
        depends_from_owners(&strings(&["libz", "libssl3", "libz"]), false, "", "deb"),
        "libssl3, libz"
    );
    assert_eq!(depends_from_owners(&strings(&[]), true, "x", "deb"), "");
    assert_eq!(depends_from_owners(&strings(&[]), false, " libfoo ", "deb"), "libfoo");
    assert_eq!(depends_from_owners(&strings(&[]), false, "", "deb"), "libc6");
    assert_eq!(depends_from_owners(&strings(&[]), false, "", "rpm"), "glibc");
}

#[test]
fn sbom_names_and_ids() {
    assert_eq!(sanitize("eza_0.1.deb"), "eza-0-1-deb");
    assert_eq!(sanitize("ä1"), "ä1");
    let stem = sbom_stem("eza", "0.23.5", "1");
    assert_eq!(stem, "eza_0.23.5-1");
    assert_eq!(
        attestation_file_names(&stem),
        ("eza_0.23.5-1.spdx.json".to_string(), "eza_0.23.5-1.slsa.json".to_string())
    );
    assert_eq!(artifact_spdx_id("a.deb"), "SPDXRef-Artifact-a-deb");
    assert_eq!(material_spdx_id("https://x/y"), "SPDXRef-Material-https---x-y");
    assert_eq!(document_namespace(&stem), "https://latest-debs.org/sbom/eza_0.23.5-1");
}

#[test]
fn artifacts_digest_hashes_the_sorted_digests() {
    let arts = vec![
        Artifact { filename: "b".to_string(), sha256: "b".to_string(), size: 1 },
        Artifact { filename: "a".to_string(), sha256: "a".to_string(), size: 2 },
    ];
    // sha256("ab")
    assert_eq!(
        artifacts_digest(&arts),
        "fb8e20fc2e4c3f248c60c39bd652f3c1347298bb977b8b4d5903b85055620603"
    );
    // sha256("")
    assert_eq!(
        artifacts_digest(&vec![]),
        "e3b0c44298fc1c149afbf4c8996fb92427ae41e4649b934ca495991b7852b855"
    );
}

fn app(entry: &str, logo: &str) -> MsixAppConfig {
    MsixAppConfig {
        id: "App".to_string(),
        executable: "eza.exe".to_string(),
        entry_point: entry.to_string(),
        display_name: "Eza".to_string(),
        description: "ls".to_string(),
        background_color: "transparent".to_string(),
        square150x150_logo: logo.to_string(),
        square44x44_logo: String::new(),
    }
}

fn config() -> MsixConfig {
    MsixConfig {
        publisher: "CN=Example".to_string(),
        arch: String::new(),
        resource_id: String::new(),
        display_name: "Eza".to_string(),
        publisher_display_name: "Example".to_string(),
        logo: "Assets\\Logo.png".to_string(),
        pfx_file: String::new(),
        applications: vec![app("", "Assets\\Big.png")],
        target_device_families: vec![],
        capabilities: strings(&["internetClient"]),
        device_capabilities: vec![],
        restricted: vec![],
    }
}

#[test]
fn msix_config_errors_in_order() {
    assert!(check_msix_config(&config()).is_ok());
    let mut c = config();
    c.publisher = " ".to_string();
    c.applications = vec![];
    assert_eq!(check_msix_config(&c), Err(MsixError::MissingPublisher));
    let mut c = config();
    c.applications = vec![];
    assert_eq!(check_msix_config(&c), Err(MsixError::NoApplications));
    let mut c = config();
    c.pfx_file = "key.pfx".to_string();
    assert_eq!(check_msix_config(&c), Err(MsixError::PfxUnsupported));
    assert!(MsixError::PfxUnsupported.message().contains("not supported"));
}

#[test]
fn msix_manifest_defaults() {
    let m = build_manifest("eza", "A modern ls", &config(), "0.23.5.0", "x64");
    assert_eq!(m.name, "eza");
    assert_eq!(m.version, "0.23.5.0");
    assert_eq!(m.arch, "x64");
    assert_eq!(m.description, "A modern ls");
    assert_eq!(m.applications.len(), 1);
    let a = &m.applications[0];
    assert_eq!(a.entry_point, "Windows.FullTrustApplication");
    assert_eq!(a.square150x150_logo, "Assets\\Big.png");
    assert_eq!(a.square44x44_logo, "Assets\\Logo.png");
    assert_eq!(m.device_families.len(), 1);
    let d: &DeviceFamily = &m.device_families[0];
    assert_eq!(d.name, "Windows.Desktop");
    assert_eq!(d.min_version, "10.0.17763.0");
    assert_eq!(d.max_version_tested, "10.0.22621.0");
    assert_eq!(m.capabilities, strings(&["internetClient"]));
    assert_eq!(m.restricted, strings(&["runFullTrust"]));

    let mut c = config();
    c.applications = vec![app("Eza.App", "")];
    c.restricted = strings(&["broadFileSystemAccess"]);
    let m = build_manifest("eza", "d", &c, "1.0.0.0", "arm64");
    assert_eq!(m.applications[0].entry_point, "Eza.App");
    assert_eq!(m.restricted, strings(&["broadFileSystemAccess"]));
    assert_eq!(msix_file_name("eza", "1.0.0.0", "arm64"), "eza_1.0.0.0_arm64.msix");
}

#[test]
fn artifacts_are_the_built_packages_in_name_order() {
    assert!(is_artifact_name("eza_1_amd64.deb"));
    assert!(is_artifact_name("eza-1.x86_64.rpm"));
    assert!(is_artifact_name("eza_1.dsc"));
    assert!(!is_artifact_name("eza_1.tar.xz"));
    assert!(!is_artifact_name(".deb"));
    assert!(!is_artifact_name("deb"));
    let arts = vec![
        Artifact { filename: "b.deb".to_string(), sha256: "1".to_string(), size: 1 },
        Artifact { filename: "a.rpm".to_string(), sha256: "2".to_string(), size: 2 },
        Artifact { filename: "a.rpm".to_string(), sha256: "3".to_string(), size: 3 },
    ];
    assert_eq!(artifact_order(&arts), vec![1, 2, 0]);
}
