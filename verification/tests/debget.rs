use lx_plugins::plugins::package_index::debget::{
    dearmor, deb_matches_arch, pick_deb_asset, scrape_deb_links, split_owner_repo,
    version_from_name, DearmorError, DebGetSource, ForgeRepoError,
};
use lx_plugins::release::Asset;

#[test]
fn arch_matching_handles_aliases() {
    assert!(deb_matches_arch("app_1.0_amd64.deb", "amd64"));
    assert!(deb_matches_arch("app_1.0_x86_64.deb", "amd64"));
    assert!(deb_matches_arch("app_1.0_arm64.deb", "arm64"));
    assert!(deb_matches_arch("app_1.0_aarch64.deb", "arm64"));
    assert!(!deb_matches_arch("app_1.0_arm64.deb", "amd64"));
    // i386 must not match x86_64's "x86".
    assert!(!deb_matches_arch("app_1.0_x86_64.deb", "i386"));
    assert!(deb_matches_arch("app_1.0_i386.deb", "i386"));
}

#[test]
fn version_from_deb_name() {
    assert_eq!(
        version_from_name("app_1.2.3-1_amd64.deb").as_deref(),
        Some("1.2.3-1")
    );
    assert_eq!(version_from_name("app.deb"), None);
}

#[test]
fn scrape_finds_deb_links() {
    let html = r#"<a href="https://x/app_1.0_amd64.deb">d</a>
                  <a href="https://x/nope.txt">t</a>"#;
    assert_eq!(scrape_deb_links(html), vec!["https://x/app_1.0_amd64.deb"]);
}

#[test]
fn dearmor_strips_armor() {
    // "hello" base64, wrapped in fake armor.
    let asc =
        b"-----BEGIN PGP PUBLIC KEY BLOCK-----\naGVsbG8=\n-----END PGP PUBLIC KEY BLOCK-----\n";
    assert_eq!(dearmor(asc).unwrap(), b"hello");
}

#[test]
fn dearmor_reports_missing_armor_and_bad_base64() {
    assert_eq!(dearmor(b"no armor here\n"), Err(DearmorError::NoArmor));
    let bad = b"-----BEGIN PGP PUBLIC KEY BLOCK-----\n!!!!\n-----END PGP PUBLIC KEY BLOCK-----\n";
    assert_eq!(dearmor(bad), Err(DearmorError::InvalidBase64));
}

#[test]
fn scraped_links_are_sorted_and_unique() {
    let html = "http://b/z.deb http://a/y.deb http://b/z.deb";
    assert_eq!(
        scrape_deb_links(html),
        vec!["http://a/y.deb", "http://b/z.deb"]
    );
}

#[test]
fn arch_without_aliases_matches_its_own_name() {
    assert!(deb_matches_arch("tool_2.0_RISCV64.deb", "riscv64"));
    assert!(!deb_matches_arch("tool_2.0_ppc64el.deb", "riscv64"));
}

fn asset(name: &str) -> Asset {
    Asset {
        name: name.to_string(),
        size: None,
        browser_download_url: format!("https://x/{name}"),
        checksums: Vec::new(),
    }
}

#[test]
fn picks_the_first_matching_deb_asset() {
    let assets = vec![
        asset("app_1.0_amd64.tar.gz"),
        asset("app_1.0_arm64.deb"),
        asset("app_1.0_x86_64.deb"),
        asset("app_1.0_amd64.deb"),
    ];
    let picked = pick_deb_asset(&assets, "amd64").unwrap();
    assert_eq!(picked.name, "app_1.0_x86_64.deb");
    assert!(pick_deb_asset(&assets, "armhf").is_none());
}

#[test]
fn debget_source_keeps_its_root() {
    let s = DebGetSource::with_root("debget-test", "/tmp/catalog".to_string());
    assert_eq!(s.instance_name(), "debget-test");
    assert_eq!(s.root, "/tmp/catalog");
    let d = DebGetSource::new("debget", "/var/lib/deb-get".to_string());
    assert_eq!(d.root, "/var/lib/deb-get");
}

#[test]
fn forge_entries_split_into_owner_and_repo() {
    assert_eq!(
        split_owner_repo(Some("eza-community/eza")),
        Ok(("eza-community".to_string(), "eza".to_string()))
    );
    assert_eq!(
        split_owner_repo(Some("group/sub/project")),
        Ok(("group".to_string(), "sub/project".to_string()))
    );
    assert_eq!(split_owner_repo(Some("eza")), Err(ForgeRepoError::NotOwnerRepo));
    assert_eq!(split_owner_repo(None), Err(ForgeRepoError::NoOwnerRepo));
}
